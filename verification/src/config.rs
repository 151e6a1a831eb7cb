//! The device configuration and its merge semantics.
//!
//! A `Configurator` owns the in-memory configuration. Saving merges an
//! incoming configuration into the current one — network settings overwrite
//! wholesale, mapping rows only replace existing button identifiers, button
//! names merge per key with truncation, widget slots merge per key with an
//! explicit empty slot meaning deletion — and hands the merged value out for
//! the caller to persist before it is committed.

use vstd::prelude::*;
use crate::mapper::{
    ca_seq_view, clone_actions, default_button_names, default_mapping_keys, mapping_get,
    mapping_lookup, mapping_view, ConfigActionV, Mapper, MappingConfiguration, MappingEntry,
};

verus! {

/// Credentials of the wireless network the device joins.
#[derive(Debug, PartialEq)]
pub struct WifiSettings {
    pub ssid: String,
    pub password: String,
}

/// The mathematical value of `WifiSettings`.
pub struct WifiSettingsV {
    pub ssid: Seq<char>,
    pub password: Seq<char>,
}

impl View for WifiSettings {
    type V = WifiSettingsV;

    open spec fn view(&self) -> WifiSettingsV {
        WifiSettingsV { ssid: self.ssid@, password: self.password@ }
    }
}

impl Clone for WifiSettings {
    /// A clone has the same mathematical value.
    fn clone(&self) -> (r: Self)
        ensures
            r@ == self@,
    {
        WifiSettings { ssid: self.ssid.clone(), password: self.password.clone() }
    }
}

/// Device-wide settings. The timezone offset is carried as the raw bit
/// pattern of the host protocol's binary32 offset-in-hours; this core only
/// stores and merges it, the serialization boundary converts it.
#[derive(Debug, PartialEq)]
pub struct DeviceSettings {
    pub wifi: Option<WifiSettings>,
    pub timezone_offset: Option<u32>,
    pub api_key: Option<String>,
}

/// The mathematical value of `DeviceSettings`.
pub struct DeviceSettingsV {
    pub wifi: Option<WifiSettingsV>,
    pub timezone_offset: Option<u32>,
    pub api_key: Option<Seq<char>>,
}

impl View for DeviceSettings {
    type V = DeviceSettingsV;

    open spec fn view(&self) -> DeviceSettingsV {
        DeviceSettingsV {
            wifi: match self.wifi {
                Some(w) => Some(w@),
                None => None,
            },
            timezone_offset: self.timezone_offset,
            api_key: match self.api_key {
                Some(k) => Some(k@),
                None => None,
            },
        }
    }
}

impl Clone for DeviceSettings {
    /// A clone has the same mathematical value.
    fn clone(&self) -> (r: Self)
        ensures
            r@ == self@,
    {
        DeviceSettings {
            wifi: match &self.wifi {
                Some(w) => Some(w.clone()),
                None => None,
            },
            timezone_offset: self.timezone_offset,
            api_key: match &self.api_key {
                Some(k) => Some(k.clone()),
                None => None,
            },
        }
    }
}

impl Default for DeviceSettings {
    /// No network, no offset, no key.
    fn default() -> (r: Self)
        ensures
            r@ == (DeviceSettingsV { wifi: None, timezone_offset: None, api_key: None }),
    {
        DeviceSettings { wifi: None, timezone_offset: None, api_key: None }
    }
}

/// What a status widget shows: a text value fetched from a URL (with an
/// optional value pointer into the fetched document), or an image.
#[derive(Debug, PartialEq)]
pub enum WidgetKindConfig {
    Text(String, Option<String>),
    Image(String),
}

/// The mathematical value of `WidgetKindConfig`.
pub enum WidgetKindConfigV {
    Text(Seq<char>, Option<Seq<char>>),
    Image(Seq<char>),
}

impl View for WidgetKindConfig {
    type V = WidgetKindConfigV;

    open spec fn view(&self) -> WidgetKindConfigV {
        match self {
            WidgetKindConfig::Text(url, ptr) => WidgetKindConfigV::Text(url@, match ptr {
                Some(p) => Some(p@),
                None => None,
            }),
            WidgetKindConfig::Image(url) => WidgetKindConfigV::Image(url@),
        }
    }
}

impl Clone for WidgetKindConfig {
    /// A clone has the same mathematical value.
    fn clone(&self) -> (r: Self)
        ensures
            r@ == self@,
    {
        match self {
            WidgetKindConfig::Text(url, ptr) => WidgetKindConfig::Text(url.clone(), match ptr {
                Some(p) => Some(p.clone()),
                None => None,
            }),
            WidgetKindConfig::Image(url) => WidgetKindConfig::Image(url.clone()),
        }
    }
}

/// One configured status widget.
#[derive(Debug, PartialEq)]
pub struct WidgetItemConfig {
    pub title: String,
    pub kind: WidgetKindConfig,
    pub update_interval_seconds: u64,
}

/// The mathematical value of `WidgetItemConfig`.
pub struct WidgetItemConfigV {
    pub title: Seq<char>,
    pub kind: WidgetKindConfigV,
    pub update_interval_seconds: u64,
}

impl View for WidgetItemConfig {
    type V = WidgetItemConfigV;

    open spec fn view(&self) -> WidgetItemConfigV {
        WidgetItemConfigV {
            title: self.title@,
            kind: self.kind@,
            update_interval_seconds: self.update_interval_seconds,
        }
    }
}

impl Clone for WidgetItemConfig {
    /// A clone has the same mathematical value.
    fn clone(&self) -> (r: Self)
        ensures
            r@ == self@,
    {
        WidgetItemConfig {
            title: self.title.clone(),
            kind: self.kind.clone(),
            update_interval_seconds: self.update_interval_seconds,
        }
    }
}

/// One button-name row: a button index and its display name.
#[derive(Debug, PartialEq)]
pub struct ButtonName {
    pub index: usize,
    pub name: String,
}

impl Clone for ButtonName {
    /// A clone has the same mathematical value.
    fn clone(&self) -> (r: Self)
        ensures
            r.index == self.index,
            r.name@ == self.name@,
    {
        ButtonName { index: self.index, name: self.name.clone() }
    }
}

/// One widget row: a slot index and its widget, where an empty slot marks a
/// deletion requested by the host.
#[derive(Debug, PartialEq)]
pub struct WidgetSlot {
    pub index: usize,
    pub widget: Option<WidgetItemConfig>,
}

impl Clone for WidgetSlot {
    /// A clone has the same mathematical value.
    fn clone(&self) -> (r: Self)
        ensures
            r.index == self.index,
            widget_value_view(r.widget) == widget_value_view(self.widget),
    {
        WidgetSlot { index: self.index, widget: match &self.widget {
            Some(w) => Some(w.clone()),
            None => None,
        } }
    }
}

/// The mathematical value of an optional widget.
pub open spec fn widget_value_view(w: Option<WidgetItemConfig>) -> Option<WidgetItemConfigV> {
    match w {
        Some(x) => Some(x@),
        None => None,
    }
}

/// The mathematical value of a button-name list.
pub open spec fn bn_view(s: Seq<ButtonName>) -> Seq<(usize, Seq<char>)> {
    Seq::new(s.len(), |i: int| (s[i].index, s[i].name@))
}

/// The mathematical value of a widget list.
pub open spec fn ws_view(s: Seq<WidgetSlot>) -> Seq<(usize, Option<WidgetItemConfigV>)> {
    Seq::new(s.len(), |i: int| (s[i].index, widget_value_view(s[i].widget)))
}

/// The mathematical value of an optional button-name list.
pub open spec fn bn_option_view(v: &Option<Vec<ButtonName>>) -> Option<Seq<(usize, Seq<char>)>> {
    match v {
        Some(b) => Some(bn_view(b@)),
        None => None,
    }
}

/// The mathematical value of an optional widget list.
pub open spec fn ws_option_view(v: &Option<Vec<WidgetSlot>>) -> Option<Seq<(usize, Option<WidgetItemConfigV>)>> {
    match v {
        Some(w) => Some(ws_view(w@)),
        None => None,
    }
}

/// The first value a keyed row list assigns to `k`.
pub open spec fn slot_lookup<V>(s: Seq<(usize, V)>, k: usize) -> Option<V>
    decreases s.len(),
{
    if s.len() == 0 {
        None
    } else if s[0].0 == k {
        Some(s[0].1)
    } else {
        slot_lookup(s.drop_first(), k)
    }
}

/// A keyed row list with no repeated key.
pub open spec fn keys_unique<V>(s: Seq<(usize, V)>) -> bool {
    forall|i: int, j: int| 0 <= i < j < s.len() ==> (#[trigger] s[i]).0 != (#[trigger] s[j]).0
}

/// The first row for `k` decides a lookup.
pub proof fn lemma_slot_lookup_first<V>(s: Seq<(usize, V)>, k: usize, j: int)
    requires
        0 <= j < s.len(),
        s[j].0 == k,
        forall|m: int| 0 <= m < j ==> (#[trigger] s[m]).0 != k,
    ensures
        slot_lookup(s, k) == Some(s[j].1),
    decreases j,
{
    if j > 0 {
        lemma_slot_lookup_first(s.drop_first(), k, j - 1);
    }
}

/// A list without a row for `k` assigns it nothing.
pub proof fn lemma_slot_lookup_none<V>(s: Seq<(usize, V)>, k: usize)
    requires
        forall|m: int| 0 <= m < s.len() ==> (#[trigger] s[m]).0 != k,
    ensures
        slot_lookup(s, k) is None,
    decreases s.len(),
{
    if s.len() > 0 {
        lemma_slot_lookup_none(s.drop_first(), k);
    }
}

/// Replacing the row at `j` with one of the same key changes no other key's
/// lookup.
pub proof fn lemma_slot_lookup_update<V>(s: Seq<(usize, V)>, j: int, e: (usize, V), k: usize)
    requires
        0 <= j < s.len(),
        s[j].0 == e.0,
        e.0 != k,
    ensures
        slot_lookup(s.update(j, e), k) == slot_lookup(s, k),
    decreases s.len(),
{
    let t = s.update(j, e);
    if s.len() > 0 {
        if j == 0 {
            assert(t.drop_first() =~= s.drop_first());
        } else {
            assert(t[0] == s[0]);
            assert(t.drop_first() =~= s.drop_first().update(j - 1, e));
            if s[0].0 != k {
                lemma_slot_lookup_update(s.drop_first(), j - 1, e, k);
            }
        }
    }
}

/// Appending a row changes only its own key's lookup, and only when the key
/// had no row yet.
pub proof fn lemma_slot_lookup_push<V>(s: Seq<(usize, V)>, e: (usize, V), k: usize)
    ensures
        e.0 != k ==> slot_lookup(s.push(e), k) == slot_lookup(s, k),
        e.0 == k && slot_lookup(s, k) is None ==> slot_lookup(s.push(e), k) == Some(e.1),
        e.0 == k && slot_lookup(s, k) is Some ==> slot_lookup(s.push(e), k) == slot_lookup(s, k),
    decreases s.len(),
{
    if s.len() == 0 {
        assert(s.push(e).len() == 1);
        assert(s.push(e)[0] == e);
        assert(s.push(e).drop_first() =~= Seq::<(usize, V)>::empty());
        assert(slot_lookup(Seq::<(usize, V)>::empty(), k) is None);
        if e.0 == k {
            assert(slot_lookup(s.push(e), k) == Some(e.1));
        } else {
            assert(slot_lookup(s.push(e), k) is None);
        }
    } else {
        assert(s.push(e)[0] == s[0]);
        assert(s.push(e).drop_first() =~= s.drop_first().push(e));
        lemma_slot_lookup_push(s.drop_first(), e, k);
        if s[0].0 == k {
            assert(slot_lookup(s.push(e), k) == Some(s[0].1));
            assert(slot_lookup(s, k) == Some(s[0].1));
        } else {
            assert(slot_lookup(s.push(e), k) == slot_lookup(s.drop_first().push(e), k));
            assert(slot_lookup(s, k) == slot_lookup(s.drop_first(), k));
        }
    }
}

/// A display name as stored: cut to twenty characters.
pub open spec fn truncate20(s: Seq<char>) -> Seq<char> {
    if s.len() > 20 {
        s.take(20)
    } else {
        s
    }
}

/// The whole device configuration.
#[derive(Debug, PartialEq)]
pub struct DeviceConfig {
    pub settings: DeviceSettings,
    pub mappings: MappingConfiguration,
    pub button_names: Option<Vec<ButtonName>>,
    pub widgets: Option<Vec<WidgetSlot>>,
}

/// The mathematical value of a `DeviceConfig`.
pub struct DeviceConfigV {
    pub settings: DeviceSettingsV,
    pub mappings: Seq<(Seq<char>, Seq<ConfigActionV>)>,
    pub button_names: Option<Seq<(usize, Seq<char>)>>,
    pub widgets: Option<Seq<(usize, Option<WidgetItemConfigV>)>>,
}

impl View for DeviceConfig {
    type V = DeviceConfigV;

    open spec fn view(&self) -> DeviceConfigV {
        DeviceConfigV {
            settings: self.settings@,
            mappings: mapping_view(self.mappings@),
            button_names: match self.button_names {
                Some(v) => Some(bn_view(v@)),
                None => None,
            },
            widgets: match self.widgets {
                Some(v) => Some(ws_view(v@)),
                None => None,
            },
        }
    }
}

impl Clone for DeviceConfig {
    /// A clone has the same mathematical value.
    fn clone(&self) -> (r: Self)
        ensures
            r@ == self@,
    {
        let mappings = clone_mappings(&self.mappings);
        let button_names = match &self.button_names {
            Some(v) => Some(clone_button_names(v)),
            None => None,
        };
        let widgets = match &self.widgets {
            Some(v) => Some(clone_widgets(v)),
            None => None,
        };
        DeviceConfig { settings: self.settings.clone(), mappings, button_names, widgets }
    }
}

pub fn clone_mappings(m: &MappingConfiguration) -> (r: MappingConfiguration)
    ensures
        mapping_view(r@) == mapping_view(m@),
{
    let mut r: MappingConfiguration = Vec::new();
    let mut i: usize = 0;
    while i < m.len()
        invariant
            i <= m@.len(),
            r@.len() == i,
            forall|k: int| 0 <= k < i ==> (#[trigger] r@[k]).button@ == m@[k].button@
                && ca_seq_view(r@[k].actions@) == ca_seq_view(m@[k].actions@),
        decreases m@.len() - i,
    {
        r.push(m[i].clone());
        i = i + 1;
    }
    proof {
        assert(mapping_view(r@) =~= mapping_view(m@));
    }
    r
}

fn clone_button_names(v: &Vec<ButtonName>) -> (r: Vec<ButtonName>)
    ensures
        bn_view(r@) == bn_view(v@),
{
    let mut r: Vec<ButtonName> = Vec::new();
    let mut i: usize = 0;
    while i < v.len()
        invariant
            i <= v@.len(),
            r@.len() == i,
            forall|k: int| 0 <= k < i ==> (#[trigger] r@[k]).index == v@[k].index
                && r@[k].name@ == v@[k].name@,
        decreases v@.len() - i,
    {
        r.push(v[i].clone());
        i = i + 1;
    }
    proof {
        assert(bn_view(r@) =~= bn_view(v@));
    }
    r
}

fn clone_widgets(v: &Vec<WidgetSlot>) -> (r: Vec<WidgetSlot>)
    ensures
        ws_view(r@) == ws_view(v@),
{
    let mut r: Vec<WidgetSlot> = Vec::new();
    let mut i: usize = 0;
    while i < v.len()
        invariant
            i <= v@.len(),
            r@.len() == i,
            forall|k: int| 0 <= k < i ==> (#[trigger] r@[k]).index == v@[k].index
                && widget_value_view(r@[k].widget) == widget_value_view(v@[k].widget),
        decreases v@.len() - i,
    {
        r.push(v[i].clone());
        i = i + 1;
    }
    proof {
        assert(ws_view(r@) =~= ws_view(v@));
    }
    r
}

/// Which parts of the configuration a save touched.
#[derive(Debug, Clone, Default, PartialEq, Eq, Structural)]
pub struct ConfigUpdatedFor {
    pub wifi: bool,
    pub timezone_offset: bool,
    pub mappings: bool,
    pub button_names: bool,
    pub api_key: bool,
    pub widgets: bool,
}

/// Whether every widget row marks a deletion.
pub open spec fn all_deleted(s: Seq<(usize, Option<WidgetItemConfigV>)>) -> bool {
    forall|i: int| 0 <= i < s.len() ==> (#[trigger] s[i]).1 is None
}

/// What merging `new` into `old` yields for the plain settings.
pub open spec fn spec_merge_settings(prev: DeviceSettingsV, new: DeviceSettingsV) -> DeviceSettingsV {
    DeviceSettingsV {
        wifi: if new.wifi is Some { new.wifi } else { prev.wifi },
        timezone_offset: if new.timezone_offset is Some { new.timezone_offset } else {
            prev.timezone_offset
        },
        api_key: match new.api_key {
            Some(k) => if k.len() == 0 { None } else { Some(k) },
            None => prev.api_key,
        },
    }
}

/// A looked-up value is the value of some row with that key.
proof fn lemma_slot_lookup_is_row<V>(s: Seq<(usize, V)>, k: usize)
    ensures
        match slot_lookup(s, k) {
            Some(v) => exists|i: int| 0 <= i < s.len() && (#[trigger] s[i]).0 == k && s[i].1 == v,
            None => true,
        },
    decreases s.len(),
{
    if s.len() > 0 && s[0].0 != k {
        lemma_slot_lookup_is_row(s.drop_first(), k);
        if slot_lookup(s, k) is Some {
            let v = slot_lookup(s, k)->0;
            let i = choose|i: int| 0 <= i < s.drop_first().len()
                && (#[trigger] s.drop_first()[i]).0 == k && s.drop_first()[i].1 == v;
            assert(s[i + 1].0 == k && s[i + 1].1 == v);
        }
    }
}

/// The position of the first row for `index`, if any.
fn bn_find(list: &Vec<ButtonName>, index: usize) -> (r: Option<usize>)
    ensures
        match r {
            Some(j) => j < list@.len() && bn_view(list@)[j as int].0 == index
                && forall|m: int| 0 <= m < j ==> (#[trigger] bn_view(list@)[m]).0 != index,
            None => forall|m: int| 0 <= m < list@.len()
                ==> (#[trigger] bn_view(list@)[m]).0 != index,
        },
{
    let mut j: usize = 0;
    while j < list.len()
        invariant
            j <= list@.len(),
            forall|m: int| 0 <= m < j ==> (#[trigger] bn_view(list@)[m]).0 != index,
        decreases list@.len() - j,
    {
        if list[j].index == index {
            return Some(j);
        }
        j = j + 1;
    }
    None
}

/// Replaces the name of the first row for `index`, or appends a row.
fn bn_upsert(list: &mut Vec<ButtonName>, index: usize, name: String)
    ensures
        slot_lookup(bn_view(final(list)@), index) == Some(name@),
        forall|k: usize| k != index
            ==> #[trigger] slot_lookup(bn_view(final(list)@), k) == slot_lookup(bn_view(old(list)@), k),
{
    let ghost v0 = bn_view(list@);
    let ghost e = (index, name@);
    match bn_find(list, index) {
        Some(j) => {
            list.set(j, ButtonName { index, name });
            proof {
                let v1 = bn_view(list@);
                assert(v1.len() == v0.len());
                assert(v1[j as int] == e);
                assert forall|m: int| 0 <= m < v1.len() && m != j implies v1[m] == v0[m] by {
                    assert(list@[m] == old(list)@[m]);
                }
                assert(v1 =~= v0.update(j as int, e));
                lemma_slot_lookup_first(v1, index, j as int);
                assert forall|k: usize| k != index
                    implies #[trigger] slot_lookup(bn_view(list@), k) == slot_lookup(v0, k) by {
                    lemma_slot_lookup_update(v0, j as int, e, k);
                }
            }
        },
        None => {
            list.push(ButtonName { index, name });
            proof {
                let v1 = bn_view(list@);
                assert(v1.len() == v0.len() + 1);
                assert(v1[v0.len() as int] == e);
                assert forall|m: int| 0 <= m < v0.len() implies v1[m] == v0[m] by {
                    assert(list@[m] == old(list)@[m]);
                }
                assert(v1 =~= v0.push(e));
                lemma_slot_lookup_none(v0, index);
                lemma_slot_lookup_push(v0, e, index);
                assert forall|k: usize| k != index
                    implies #[trigger] slot_lookup(bn_view(list@), k) == slot_lookup(v0, k) by {
                    lemma_slot_lookup_push(v0, e, k);
                }
            }
        },
    }
}

/// The position of the first row for `index`, if any.
fn ws_find(list: &Vec<WidgetSlot>, index: usize) -> (r: Option<usize>)
    ensures
        match r {
            Some(j) => j < list@.len() && ws_view(list@)[j as int].0 == index
                && forall|m: int| 0 <= m < j ==> (#[trigger] ws_view(list@)[m]).0 != index,
            None => forall|m: int| 0 <= m < list@.len()
                ==> (#[trigger] ws_view(list@)[m]).0 != index,
        },
{
    let mut j: usize = 0;
    while j < list.len()
        invariant
            j <= list@.len(),
            forall|m: int| 0 <= m < j ==> (#[trigger] ws_view(list@)[m]).0 != index,
        decreases list@.len() - j,
    {
        if list[j].index == index {
            return Some(j);
        }
        j = j + 1;
    }
    None
}

/// Replaces the widget of the first row for `index`, or appends a row; an
/// empty `widget` marks the slot deleted.
fn ws_upsert(list: &mut Vec<WidgetSlot>, index: usize, widget: Option<WidgetItemConfig>)
    ensures
        slot_lookup(ws_view(final(list)@), index) == Some(widget_value_view(widget)),
        forall|k: usize| k != index
            ==> #[trigger] slot_lookup(ws_view(final(list)@), k) == slot_lookup(ws_view(old(list)@), k),
{
    let ghost v0 = ws_view(list@);
    let ghost e = (index, widget_value_view(widget));
    match ws_find(list, index) {
        Some(j) => {
            list.set(j, WidgetSlot { index, widget });
            proof {
                let v1 = ws_view(list@);
                assert(v1.len() == v0.len());
                assert(v1[j as int] == e);
                assert forall|m: int| 0 <= m < v1.len() && m != j implies v1[m] == v0[m] by {
                    assert(list@[m] == old(list)@[m]);
                }
                assert(v1 =~= v0.update(j as int, e));
                lemma_slot_lookup_first(v1, index, j as int);
                assert forall|k: usize| k != index
                    implies #[trigger] slot_lookup(ws_view(list@), k) == slot_lookup(v0, k) by {
                    lemma_slot_lookup_update(v0, j as int, e, k);
                }
            }
        },
        None => {
            list.push(WidgetSlot { index, widget });
            proof {
                let v1 = ws_view(list@);
                assert(v1.len() == v0.len() + 1);
                assert(v1[v0.len() as int] == e);
                assert forall|m: int| 0 <= m < v0.len() implies v1[m] == v0[m] by {
                    assert(list@[m] == old(list)@[m]);
                }
                assert(v1 =~= v0.push(e));
                lemma_slot_lookup_none(v0, index);
                lemma_slot_lookup_push(v0, e, index);
                assert forall|k: usize| k != index
                    implies #[trigger] slot_lookup(ws_view(list@), k) == slot_lookup(v0, k) by {
                    lemma_slot_lookup_push(v0, e, k);
                }
            }
        },
    }
}

/// Cuts a display name to twenty characters.
fn truncate_name(name: &String) -> (r: String)
    ensures
        r@ == truncate20(name@),
{
    let n = name.as_str().unicode_len();
    if n > 20 {
        let cut = name.as_str().substring_char(0, 20);
        cut.to_owned()
    } else {
        name.clone()
    }
}

/// What merging a widget row list assigns to `k`: the incoming row when
/// there is one, else the old one.
pub open spec fn spec_widget_merged(
    prev: Option<Seq<(usize, Option<WidgetItemConfigV>)>>,
    nw: Seq<(usize, Option<WidgetItemConfigV>)>,
    k: usize,
) -> Option<Option<WidgetItemConfigV>> {
    match slot_lookup(nw, k) {
        Some(v) => Some(v),
        None => match prev {
            Some(ow) => slot_lookup(ow, k),
            None => None,
        },
    }
}

/// What merging a button-name list assigns to `k`: the incoming name,
/// truncated, when there is one, else the old one.
pub open spec fn spec_names_merged(
    prev: Option<Seq<(usize, Seq<char>)>>,
    nb: Seq<(usize, Seq<char>)>,
    k: usize,
) -> Option<Seq<char>> {
    match slot_lookup(nb, k) {
        Some(nm) => Some(truncate20(nm)),
        None => match prev {
            Some(ob) => slot_lookup(ob, k),
            None => None,
        },
    }
}


/// Whether `m` is the merge of `newc` into `oldc`: the plain settings
/// merged, every mapping row keeping its identifier and taking the incoming
/// action list when there is one, button names merged per key with
/// truncation, widget rows merged per key with deletion markers honoured
/// and a table left without any widget collapsed away.
pub open spec fn spec_merged(oldc: DeviceConfigV, newc: DeviceConfigV, m: DeviceConfigV) -> bool {
    &&& m.settings == spec_merge_settings(oldc.settings, newc.settings)
    &&& m.mappings.len() == oldc.mappings.len()
    &&& forall|i: int| 0 <= i < oldc.mappings.len()
        ==> (#[trigger] m.mappings[i]).0 == oldc.mappings[i].0
    &&& forall|i: int| 0 <= i < oldc.mappings.len()
        ==> (#[trigger] m.mappings[i]).1 == (match mapping_lookup(newc.mappings, oldc.mappings[i].0) {
            Some(v) => v,
            None => oldc.mappings[i].1,
        })
    &&& match newc.button_names {
        None => m.button_names == oldc.button_names,
        Some(nb) => m.button_names matches Some(mb)
            && forall|k: usize| #[trigger] slot_lookup(mb, k)
                == spec_names_merged(oldc.button_names, nb, k),
    }
    &&& match newc.widgets {
        None => m.widgets == oldc.widgets,
        Some(nw) => match m.widgets {
            Some(mw) => (forall|k: usize| #[trigger] slot_lookup(mw, k)
                    == spec_widget_merged(oldc.widgets, nw, k))
                && mw.len() > 0 && !all_deleted(mw),
            None => forall|k: usize| match #[trigger] spec_widget_merged(oldc.widgets, nw, k) {
                Some(v) => v is None,
                None => true,
            },
        },
    }
}

/// Which parts an incoming configuration touches.
pub open spec fn spec_updated_flags(newc: DeviceConfigV) -> ConfigUpdatedFor {
    ConfigUpdatedFor {
        wifi: newc.settings.wifi is Some,
        timezone_offset: newc.settings.timezone_offset is Some,
        mappings: newc.mappings.len() > 0,
        button_names: newc.button_names is Some,
        api_key: newc.settings.api_key is Some,
        widgets: newc.widgets is Some,
    }
}

/// An incoming configuration whose keyed row lists repeat no key, as the
/// host protocol's JSON maps guarantee.
pub open spec fn spec_config_wf(c: DeviceConfigV) -> bool {
    &&& (c.button_names matches Some(nb) ==> keys_unique(nb))
    &&& (c.widgets matches Some(nw) ==> keys_unique(nw))
}

/// Whether `c` is the configuration the device is born with: empty
/// settings, the built-in mapping table, the default button labels and the
/// two sample widgets.
pub open spec fn is_default_config(c: DeviceConfigV) -> bool {
    &&& c.settings == (DeviceSettingsV { wifi: None, timezone_offset: None, api_key: None })
    &&& c.mappings.len() == 17
    &&& forall|i: int| 0 <= i < 17 ==> (#[trigger] c.mappings[i]).0 == default_mapping_keys()[i]
    &&& mapping_lookup(c.mappings, "default"@) == Some(seq![ConfigActionV::Delay { ms: 1 }])
    &&& mapping_lookup(c.mappings, "1"@) == Some(seq![
        ConfigActionV::KeyPress { keys: seq!["KeyA"@], modifier: Some("ShiftLeft"@) },
        ConfigActionV::Delay { ms: 10 },
        ConfigActionV::KeyRelease,
    ])
    &&& c.button_names matches Some(b) && b.len() == 16
        && forall|i: int| 0 <= i < 16 ==> #[trigger] b[i] == (i as usize, default_button_names()[i])
    &&& c.widgets == Some(seq![
        (0usize, Some(WidgetItemConfigV {
            title: "Widget 1"@,
            kind: WidgetKindConfigV::Text(
                "https://status.shantanugoel.com/api/v1/endpoints/internet_act-status/statuses"@,
                Some("/results/0/duration"@),
            ),
            update_interval_seconds: 5,
        })),
        (1usize, Some(WidgetItemConfigV {
            title: "Widget 2"@,
            kind: WidgetKindConfigV::Image("https://www.gstatic.com/webp/gallery/2.jpg"@),
            update_interval_seconds: 60,
        })),
    ])
}

/// The configuration the device is born with, and returns to on reset.
pub fn default_device_config() -> (r: DeviceConfig)
    ensures
        is_default_config(r@),
        spec_config_wf(r@),
{
    let names = Mapper::get_default_button_names();
    proof {
        assert(names.deep_view().len() == names@.len());
        assert(default_button_names().len() == 16);
    }
    let mut button_names: Vec<ButtonName> = Vec::new();
    let mut i: usize = 0;
    while i < names.len()
        invariant
            i <= names@.len(),
            names.deep_view() == default_button_names(),
            names@.len() == 16,
            button_names@.len() == i,
            forall|k: int| 0 <= k < i
                ==> #[trigger] bn_view(button_names@)[k] == (k as usize, default_button_names()[k]),
        decreases names@.len() - i,
    {
        let ghost bn0 = button_names@;
        button_names.push(ButtonName { index: i, name: names[i].to_owned() });
        proof {
            assert forall|k: int| 0 <= k < i + 1
                implies #[trigger] bn_view(button_names@)[k] == (k as usize, default_button_names()[k]) by {
                if k < i {
                    assert(button_names@[k] == bn0[k]);
                    assert(bn_view(bn0)[k] == (k as usize, default_button_names()[k]));
                } else {
                    assert(button_names@[k].index == i);
                    assert(button_names@[k].name@ == names.deep_view()[i as int]);
                }
            }
        }
        i = i + 1;
    }
    let w1 = WidgetSlot { index: 0, widget: Some(WidgetItemConfig {
        title: String::from_str("Widget 1"),
        kind: WidgetKindConfig::Text(
            String::from_str("https://status.shantanugoel.com/api/v1/endpoints/internet_act-status/statuses"),
            Some(String::from_str("/results/0/duration")),
        ),
        update_interval_seconds: 5,
    }) };
    let w2 = WidgetSlot { index: 1, widget: Some(WidgetItemConfig {
        title: String::from_str("Widget 2"),
        kind: WidgetKindConfig::Image(String::from_str("https://www.gstatic.com/webp/gallery/2.jpg")),
        update_interval_seconds: 60,
    }) };
    let widgets: Vec<WidgetSlot> = vec![w1, w2];
    let r = DeviceConfig {
        settings: DeviceSettings::default(),
        mappings: Mapper::load_default_config(),
        button_names: Some(button_names),
        widgets: Some(widgets),
    };
    proof {
        assert(ws_view(r.widgets->0@) =~= seq![
            (0usize, Some(WidgetItemConfigV {
                title: "Widget 1"@,
                kind: WidgetKindConfigV::Text(
                    "https://status.shantanugoel.com/api/v1/endpoints/internet_act-status/statuses"@,
                    Some("/results/0/duration"@),
                ),
                update_interval_seconds: 5,
            })),
            (1usize, Some(WidgetItemConfigV {
                title: "Widget 2"@,
                kind: WidgetKindConfigV::Image("https://www.gstatic.com/webp/gallery/2.jpg"@),
                update_interval_seconds: 60,
            })),
        ]);
        assert(keys_unique(ws_view(r.widgets->0@)));
        assert forall|a: int, b: int| 0 <= a < b < bn_view(r.button_names->0@).len()
            implies (#[trigger] bn_view(r.button_names->0@)[a]).0
                != (#[trigger] bn_view(r.button_names->0@)[b]).0 by {
        }
    }
    r
}

/// Owns the in-memory device configuration and computes merges; persisting
/// the merged value is the caller's part, after which it is committed here.
#[derive(Debug)]
pub struct Configurator {
    config: DeviceConfig,
}

impl View for Configurator {
    type V = DeviceConfigV;

    closed spec fn view(&self) -> DeviceConfigV {
        self.config@
    }
}

impl Configurator {
    pub fn new(config: DeviceConfig) -> (r: Self)
        ensures
            r@ == config@,
    {
        Configurator { config }
    }

    /// A copy of the current configuration.
    pub fn get_config(&self) -> (r: DeviceConfig)
        ensures
            r@ == self@,
    {
        self.config.clone()
    }

    /// A copy of the current wireless settings, if any.
    pub fn get_wifi_settings(&self) -> (r: Option<WifiSettings>)
        ensures
            (match r {
                Some(w) => Some(w@),
                None => None,
            }) == self@.settings.wifi,
    {
        match &self.config.settings.wifi {
            Some(w) => Some(w.clone()),
            None => None,
        }
    }

    /// A copy of the current mapping table.
    pub fn get_mappings(&self) -> (r: MappingConfiguration)
        ensures
            mapping_view(r@) == self@.mappings,
    {
        clone_mappings(&self.config.mappings)
    }

    /// A copy of the current button names, if any are stored.
    pub fn get_button_names(&self) -> (r: Option<Vec<ButtonName>>)
        ensures
            bn_option_view(&r) == self@.button_names,
    {
        match &self.config.button_names {
            Some(v) => Some(clone_button_names(v)),
            None => None,
        }
    }

    /// The stored key for the status-ingestion interface, if any.
    pub fn get_api_key(&self) -> (r: Option<String>)
        ensures
            (match r {
                Some(k) => Some(k@),
                None => None,
            }) == self@.settings.api_key,
    {
        match &self.config.settings.api_key {
            Some(k) => Some(k.clone()),
            None => None,
        }
    }

    /// The stored timezone offset, as the raw bit pattern it was configured
    /// with, if any.
    pub fn get_timezone_offset(&self) -> (r: Option<u32>)
        ensures
            r == self@.settings.timezone_offset,
    {
        self.config.settings.timezone_offset
    }

    /// The widgets actually configured: the stored rows with the deleted
    /// slots left out, or nothing when no widget remains.
    pub fn get_widgets(&self) -> (r: Option<Vec<WidgetSlot>>)
        ensures
            ({
                let live = match self@.widgets {
                    Some(w) => w.filter(|e: (usize, Option<WidgetItemConfigV>)| e.1 is Some),
                    None => Seq::empty(),
                };
                match r {
                    Some(v) => ws_view(v@) == live && live.len() > 0,
                    None => live.len() == 0,
                }
            }),
    {
        let slots = match &self.config.widgets {
            Some(v) => v,
            None => {
                proof {
                    assert(Seq::<(usize, Option<WidgetItemConfigV>)>::empty().len() == 0);
                }
                return None;
            },
        };
        let ghost w = ws_view(slots@);
        let ghost live = w.filter(|e: (usize, Option<WidgetItemConfigV>)| e.1 is Some);
        let mut out: Vec<WidgetSlot> = Vec::new();
        let mut i: usize = 0;
        proof {
            assert(w.take(0) =~= Seq::<(usize, Option<WidgetItemConfigV>)>::empty());
            reveal(Seq::filter);
        }
        while i < slots.len()
            invariant
                i <= slots@.len(),
                w == ws_view(slots@),
                w.len() == slots@.len(),
                ws_view(out@) == w.take(i as int).filter(|e: (usize, Option<WidgetItemConfigV>)| e.1 is Some),
            decreases slots@.len() - i,
        {
            let ghost out0 = ws_view(out@);
            let keep = slots[i].widget.is_some();
            if keep {
                out.push(slots[i].clone());
            }
            proof {
                reveal(Seq::filter);
                let pred = |e: (usize, Option<WidgetItemConfigV>)| e.1 is Some;
                assert(w.take(i + 1).drop_last() =~= w.take(i as int));
                assert(w.take(i + 1).last() == w[i as int]);
                if keep {
                    assert(ws_view(out@) =~= out0.push(w[i as int]));
                    assert(w.take(i + 1).filter(pred) == w.take(i as int).filter(pred).push(w[i as int]));
                } else {
                    assert(ws_view(out@) =~= out0);
                    assert(w.take(i + 1).filter(pred) == w.take(i as int).filter(pred));
                }
            }
            i = i + 1;
        }
        proof {
            assert(w.take(w.len() as int) =~= w);
        }
        if out.len() > 0 {
            Some(out)
        } else {
            None
        }
    }

    /// Replaces the in-memory configuration, after the caller has persisted
    /// it.
    pub fn commit(&mut self, merged: DeviceConfig)
        ensures
            final(self)@ == merged@,
    {
        self.config = merged;
    }

    /// Merges `new` into the current configuration and reports which parts
    /// it touches; the current configuration is not changed. Network
    /// settings and the timezone offset overwrite wholesale; an empty
    /// incoming key deletes the stored key; mapping rows only replace
    /// existing button identifiers, never add one; button names merge per
    /// key, truncated to twenty characters; widget rows merge per key, an
    /// empty incoming slot meaning deletion, and a table left without any
    /// widget collapses away.
    pub fn plan_save(&self, new: &DeviceConfig) -> (r: (DeviceConfig, ConfigUpdatedFor))
        requires
            spec_config_wf(new@),
        ensures
            spec_merged(self@, new@, r.0@),
            r.1 == spec_updated_flags(new@),
    {
        let settings = merge_settings(&self.config.settings, &new.settings);
        let mappings = merge_mappings(&self.config.mappings, &new.mappings);
        let button_names = match &new.button_names {
            None => match &self.config.button_names {
                Some(v) => Some(clone_button_names(v)),
                None => None,
            },
            Some(nv) => Some(merge_button_names(&self.config.button_names, nv)),
        };
        let ghost oldwv: Option<Seq<(usize, Option<WidgetItemConfigV>)>> = ws_option_view(&self.config.widgets);
        let widgets = match &new.widgets {
            None => match &self.config.widgets {
                Some(v) => Some(clone_widgets(v)),
                None => None,
            },
            Some(nv) => {
                let w = merge_widgets(&self.config.widgets, nv);
                proof {
                    let nw = ws_view(nv@);
                    assert(new@.widgets == Some(nw));
                    match &w {
                        Some(m) => {
                            assert(forall|k: usize| #[trigger] slot_lookup(ws_view(m@), k)
                                == spec_widget_merged(oldwv, nw, k));
                        },
                        None => {
                            assert(forall|k: usize| match #[trigger] spec_widget_merged(oldwv, nw, k) {
                                Some(v) => v is None,
                                None => true,
                            });
                        },
                    }
                }
                w
            },
        };
        let flags = ConfigUpdatedFor {
            wifi: new.settings.wifi.is_some(),
            timezone_offset: new.settings.timezone_offset.is_some(),
            mappings: new.mappings.len() > 0,
            button_names: new.button_names.is_some(),
            api_key: new.settings.api_key.is_some(),
            widgets: new.widgets.is_some(),
        };
        let merged = DeviceConfig { settings, mappings, button_names, widgets };
        proof {
            let ghost oldv: Option<Seq<(usize, Option<WidgetItemConfigV>)>> = ws_option_view(&self.config.widgets);
            assert(oldv == self@.widgets);
            match new@.widgets {
                None => {
                    assert(merged@.widgets == self@.widgets);
                },
                Some(nw) => {
                    assert(new.widgets is Some);
                    match merged@.widgets {
                        Some(m) => {
                            assert forall|k: usize| #[trigger] slot_lookup(m, k)
                                == spec_widget_merged(self@.widgets, nw, k) by {
                                assert(spec_widget_merged(oldv, nw, k)
                                    == spec_widget_merged(self@.widgets, nw, k));
                            }
                        },
                        None => {
                            assert forall|k: usize| match #[trigger] spec_widget_merged(self@.widgets, nw, k) {
                                Some(v) => v is None,
                                None => true,
                            } by {
                                assert(spec_widget_merged(oldv, nw, k)
                                    == spec_widget_merged(self@.widgets, nw, k));
                            }
                        },
                    }
                },
            }
        }
        (merged, flags)
    }
}

/// The merged plain settings.
fn merge_settings(prev: &DeviceSettings, new: &DeviceSettings) -> (r: DeviceSettings)
    ensures
        r@ == spec_merge_settings(prev@, new@),
{
    let wifi = match &new.wifi {
        Some(w) => Some(w.clone()),
        None => match &prev.wifi {
            Some(w) => Some(w.clone()),
            None => None,
        },
    };
    let timezone_offset = match new.timezone_offset {
        Some(t) => Some(t),
        None => prev.timezone_offset,
    };
    let api_key = match &new.api_key {
        Some(k) => {
            if k.as_str().is_empty() {
                None
            } else {
                Some(k.clone())
            }
        },
        None => match &prev.api_key {
            Some(k) => Some(k.clone()),
            None => None,
        },
    };
    DeviceSettings { wifi, timezone_offset, api_key }
}

/// The merged mapping table: each existing row keeps its identifier and
/// takes the incoming action list for it, if there is one; incoming rows
/// for unknown identifiers are dropped.
fn merge_mappings(prev: &MappingConfiguration, new: &MappingConfiguration) -> (r: MappingConfiguration)
    ensures
        mapping_view(r@).len() == mapping_view(prev@).len(),
        forall|i: int| 0 <= i < mapping_view(prev@).len()
            ==> (#[trigger] mapping_view(r@)[i]).0 == mapping_view(prev@)[i].0,
        forall|i: int| 0 <= i < mapping_view(prev@).len()
            ==> (#[trigger] mapping_view(r@)[i]).1 == (match mapping_lookup(mapping_view(new@), mapping_view(prev@)[i].0) {
                Some(v) => v,
                None => mapping_view(prev@)[i].1,
            }),
{
    let mut r: MappingConfiguration = Vec::new();
    let mut i: usize = 0;
    while i < prev.len()
        invariant
            i <= prev@.len(),
            r@.len() == i,
            forall|k: int| 0 <= k < i
                ==> (#[trigger] mapping_view(r@)[k]).0 == mapping_view(prev@)[k].0,
            forall|k: int| 0 <= k < i
                ==> (#[trigger] mapping_view(r@)[k]).1 == (match mapping_lookup(mapping_view(new@), mapping_view(prev@)[k].0) {
                    Some(v) => v,
                    None => mapping_view(prev@)[k].1,
                }),
        decreases prev@.len() - i,
    {
        let ghost r0 = r@;
        let entry = &prev[i];
        match mapping_get(new, &entry.button) {
            Some(v) => {
                r.push(MappingEntry { button: entry.button.clone(), actions: clone_actions(v) });
            },
            None => {
                r.push(entry.clone());
            },
        }
        proof {
            assert forall|k: int| 0 <= k < i + 1
                implies (#[trigger] mapping_view(r@)[k]).0 == mapping_view(prev@)[k].0
                    && mapping_view(r@)[k].1 == (match mapping_lookup(mapping_view(new@), mapping_view(prev@)[k].0) {
                        Some(v) => v,
                        None => mapping_view(prev@)[k].1,
                    }) by {
                if k < i {
                    assert(r@[k] == r0[k]);
                    assert(mapping_view(r0)[k].0 == mapping_view(prev@)[k].0);
                } else {
                    assert(r@[k] == r@.last());
                    assert(mapping_view(prev@)[k].0 == entry.button@);
                }
            }
        }
        i = i + 1;
    }
    r
}

/// The merged button names: the old rows, each incoming row upserted with
/// its name truncated to twenty characters.
fn merge_button_names(prev: &Option<Vec<ButtonName>>, new: &Vec<ButtonName>) -> (r: Vec<ButtonName>)
    requires
        keys_unique(bn_view(new@)),
    ensures
        forall|k: usize| #[trigger] slot_lookup(bn_view(r@), k)
            == spec_names_merged(bn_option_view(prev), bn_view(new@), k),
{
    let ghost oldv: Option<Seq<(usize, Seq<char>)>> = bn_option_view(prev);
    let ghost nv = bn_view(new@);
    let mut r: Vec<ButtonName> = match prev {
        Some(v) => clone_button_names(v),
        None => Vec::new(),
    };
    proof {
        if prev is None {
            assert(bn_view(r@) =~= Seq::<(usize, Seq<char>)>::empty());
        }
        assert(nv.take(0) =~= Seq::<(usize, Seq<char>)>::empty());
    }
    let mut i: usize = 0;
    while i < new.len()
        invariant
            i <= new@.len(),
            nv == bn_view(new@),
            keys_unique(nv),
            forall|k: usize| #[trigger] slot_lookup(bn_view(r@), k)
                == spec_names_merged(oldv, nv.take(i as int), k),
        decreases new@.len() - i,
    {
        let ghost rv0 = bn_view(r@);
        let entry = &new[i];
        let tname = truncate_name(&entry.name);
        bn_upsert(&mut r, entry.index, tname);
        proof {
            let ki = entry.index;
            assert(nv[i as int] == (ki, entry.name@));
            assert(nv.take(i + 1) =~= nv.take(i as int).push(nv[i as int]));
            assert forall|m: int| 0 <= m < i implies (#[trigger] nv.take(i as int)[m]).0 != ki by {
                assert(nv.take(i as int)[m] == nv[m]);
            }
            lemma_slot_lookup_none(nv.take(i as int), ki);
            assert forall|k: usize| #[trigger] slot_lookup(bn_view(r@), k)
                == spec_names_merged(oldv, nv.take(i + 1), k) by {
                lemma_slot_lookup_push(nv.take(i as int), nv[i as int], k);
                if k != ki {
                    assert(slot_lookup(bn_view(r@), k) == slot_lookup(rv0, k));
                }
            }
        }
        i = i + 1;
    }
    proof {
        assert(nv.take(new@.len() as int) =~= nv);
    }
    r
}

/// The merged widget rows: the old rows, each incoming row upserted, an
/// empty incoming slot marking deletion; a result left without any widget
/// collapses to nothing.
fn merge_widgets(prev: &Option<Vec<WidgetSlot>>, new: &Vec<WidgetSlot>) -> (r: Option<Vec<WidgetSlot>>)
    requires
        keys_unique(ws_view(new@)),
    ensures
        match r {
            Some(m) => (forall|k: usize| #[trigger] slot_lookup(ws_view(m@), k)
                    == spec_widget_merged(ws_option_view(prev), ws_view(new@), k))
                && ws_view(m@).len() > 0 && !all_deleted(ws_view(m@)),
            None => forall|k: usize| match #[trigger] spec_widget_merged(ws_option_view(prev), ws_view(new@), k) {
                Some(v) => v is None,
                None => true,
            },
        },
{
    let ghost oldv: Option<Seq<(usize, Option<WidgetItemConfigV>)>> = ws_option_view(prev);
    let ghost nv = ws_view(new@);
    let mut m: Vec<WidgetSlot> = match prev {
        Some(v) => clone_widgets(v),
        None => Vec::new(),
    };
    proof {
        if prev is None {
            assert(ws_view(m@) =~= Seq::<(usize, Option<WidgetItemConfigV>)>::empty());
        }
        assert(nv.take(0) =~= Seq::<(usize, Option<WidgetItemConfigV>)>::empty());
    }
    let mut i: usize = 0;
    while i < new.len()
        invariant
            i <= new@.len(),
            nv == ws_view(new@),
            keys_unique(nv),
            forall|k: usize| #[trigger] slot_lookup(ws_view(m@), k)
                == spec_widget_merged(oldv, nv.take(i as int), k),
        decreases new@.len() - i,
    {
        let ghost mv0 = ws_view(m@);
        let entry = &new[i];
        let w = match &entry.widget {
            Some(x) => Some(x.clone()),
            None => None,
        };
        ws_upsert(&mut m, entry.index, w);
        proof {
            let ki = entry.index;
            assert(nv[i as int] == (ki, widget_value_view(entry.widget)));
            assert(nv.take(i + 1) =~= nv.take(i as int).push(nv[i as int]));
            assert forall|j: int| 0 <= j < i implies (#[trigger] nv.take(i as int)[j]).0 != ki by {
                assert(nv.take(i as int)[j] == nv[j]);
            }
            lemma_slot_lookup_none(nv.take(i as int), ki);
            assert forall|k: usize| #[trigger] slot_lookup(ws_view(m@), k)
                == spec_widget_merged(oldv, nv.take(i + 1), k) by {
                lemma_slot_lookup_push(nv.take(i as int), nv[i as int], k);
                if k != ki {
                    assert(slot_lookup(ws_view(m@), k) == slot_lookup(mv0, k));
                }
            }
        }
        i = i + 1;
    }
    proof {
        assert(nv.take(new@.len() as int) =~= nv);
    }
    // Collapse a table left without any widget.
    let mut any_widget = false;
    let mut j: usize = 0;
    while j < m.len()
        invariant
            j <= m@.len(),
            any_widget == exists|t: int| 0 <= t < j && (#[trigger] ws_view(m@)[t]).1 is Some,
        decreases m@.len() - j,
    {
        if m[j].widget.is_some() {
            any_widget = true;
            proof {
                assert(ws_view(m@)[j as int].1 is Some);
            }
        } else {
            proof {
                assert(ws_view(m@)[j as int].1 is None);
            }
        }
        j = j + 1;
    }
    if any_widget {
        proof {
            assert(ws_view(m@).len() > 0 && !all_deleted(ws_view(m@)));
        }
        Some(m)
    } else {
        proof {
            assert(all_deleted(ws_view(m@)));
            assert forall|k: usize| match #[trigger] spec_widget_merged(oldv, nv, k) {
                Some(v) => v is None,
                None => true,
            } by {
                if spec_widget_merged(oldv, nv, k) is Some {
                    lemma_slot_lookup_is_row(ws_view(m@), k);
                }
            }
        }
        None
    }
}

/// The mapping table a merge never extends: an identifier without a row
/// keeps having none, whatever the incoming configuration asked.
pub proof fn lemma_merge_adds_no_button(
    oldm: Seq<(Seq<char>, Seq<ConfigActionV>)>,
    merged: Seq<(Seq<char>, Seq<ConfigActionV>)>,
    key: Seq<char>,
)
    requires
        merged.len() == oldm.len(),
        forall|i: int| 0 <= i < oldm.len() ==> (#[trigger] merged[i]).0 == oldm[i].0,
        mapping_lookup(oldm, key) is None,
    ensures
        mapping_lookup(merged, key) is None,
    decreases oldm.len(),
{
    if oldm.len() > 0 {
        assert(merged[0].0 == oldm[0].0);
        assert forall|i: int| 0 <= i < oldm.drop_first().len()
            implies (#[trigger] merged.drop_first()[i]).0 == oldm.drop_first()[i].0 by {
            assert(merged.drop_first()[i] == merged[i + 1]);
        }
        lemma_merge_adds_no_button(oldm.drop_first(), merged.drop_first(), key);
    }
}

} // verus!
