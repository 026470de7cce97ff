//! Changes to the configuration of a jail.

use crate::jail_config::{
    nic_views, text_option_view, uuid_option_view, JailConfig, JailConfigView, NICView, NIC,
};
use crate::text::{str_eq, texts};
use crate::uuid::Uuid;
use vstd::prelude::*;

verus! {

/// A change to the interface with a given hardware address: each value
/// that is present replaces that of the interface.
#[derive(Debug, PartialEq)]
pub struct NICUpdate {
    pub mac: String,
    pub interface: Option<String>,
    pub vlan: Option<u16>,
    pub nic_tag: Option<String>,
    pub ip: Option<String>,
    pub netmask: Option<String>,
    pub gateway: Option<String>,
    pub primary: Option<bool>,
}

/// A change to an interface, as plain values.
pub struct NICUpdateView {
    pub mac: Seq<char>,
    pub interface: Option<Seq<char>>,
    pub vlan: Option<u16>,
    pub nic_tag: Option<Seq<char>>,
    pub ip: Option<Seq<char>>,
    pub netmask: Option<Seq<char>>,
    pub gateway: Option<Seq<char>>,
    pub primary: Option<bool>,
}

impl View for NICUpdate {
    type V = NICUpdateView;

    open spec fn view(&self) -> NICUpdateView {
        NICUpdateView {
            mac: self.mac@,
            interface: text_option_view(self.interface),
            vlan: self.vlan,
            nic_tag: text_option_view(self.nic_tag),
            ip: text_option_view(self.ip),
            netmask: text_option_view(self.netmask),
            gateway: text_option_view(self.gateway),
            primary: self.primary,
        }
    }
}

/// The views of a list of changes to interfaces.
pub open spec fn nic_update_views(ups: Seq<NICUpdate>) -> Seq<NICUpdateView> {
    Seq::new(ups.len(), |i: int| ups[i]@)
}

/// A change to the configuration of a jail: each value that is present
/// replaces that of the configuration. The identifiers of the jail and of
/// its image and the quota are not among them and so are never changed.
#[derive(Debug, PartialEq)]
pub struct JailUpdate {
    pub alias: Option<String>,
    pub hostname: Option<String>,
    pub autostart: Option<bool>,
    pub max_physical_memory: Option<u64>,
    pub cpu_cap: Option<u64>,
    pub max_shm_memory: Option<u64>,
    pub max_locked_memory: Option<u64>,
    pub max_lwps: Option<u64>,
    pub archive_on_delete: Option<bool>,
    pub billing_id: Option<Uuid>,
    pub do_not_inventory: Option<bool>,
    pub dns_domain: Option<String>,
    pub owner_uuid: Option<Uuid>,
    pub package_name: Option<String>,
    pub package_version: Option<String>,
    /// Interfaces to add.
    pub add_nics: Vec<NIC>,
    /// The hardware addresses of the interfaces to remove.
    pub remove_nics: Vec<String>,
    /// Changes to interfaces.
    pub update_nics: Vec<NICUpdate>,
}

/// A change to a configuration, as plain values.
pub struct JailUpdateView {
    pub alias: Option<Seq<char>>,
    pub hostname: Option<Seq<char>>,
    pub autostart: Option<bool>,
    pub max_physical_memory: Option<u64>,
    pub cpu_cap: Option<u64>,
    pub max_shm_memory: Option<u64>,
    pub max_locked_memory: Option<u64>,
    pub max_lwps: Option<u64>,
    pub archive_on_delete: Option<bool>,
    pub billing_id: Option<Seq<u8>>,
    pub do_not_inventory: Option<bool>,
    pub dns_domain: Option<Seq<char>>,
    pub owner_uuid: Option<Seq<u8>>,
    pub package_name: Option<Seq<char>>,
    pub package_version: Option<Seq<char>>,
    pub add_nics: Seq<NICView>,
    pub remove_nics: Seq<Seq<char>>,
    pub update_nics: Seq<NICUpdateView>,
}

impl View for JailUpdate {
    type V = JailUpdateView;

    open spec fn view(&self) -> JailUpdateView {
        JailUpdateView {
            alias: text_option_view(self.alias),
            hostname: text_option_view(self.hostname),
            autostart: self.autostart,
            max_physical_memory: self.max_physical_memory,
            cpu_cap: self.cpu_cap,
            max_shm_memory: self.max_shm_memory,
            max_locked_memory: self.max_locked_memory,
            max_lwps: self.max_lwps,
            archive_on_delete: self.archive_on_delete,
            billing_id: uuid_option_view(self.billing_id),
            do_not_inventory: self.do_not_inventory,
            dns_domain: text_option_view(self.dns_domain),
            owner_uuid: uuid_option_view(self.owner_uuid),
            package_name: text_option_view(self.package_name),
            package_version: text_option_view(self.package_version),
            add_nics: nic_views(self.add_nics@),
            remove_nics: texts(self.remove_nics@),
            update_nics: nic_update_views(self.update_nics@),
        }
    }
}

/// The new value where there is one, else the old one.
pub open spec fn or_value<T>(new: Option<T>, old: T) -> T {
    match new {
        Some(v) => v,
        None => old,
    }
}

/// The new value where there is one, else the old one, which may be absent.
pub open spec fn or_option<T>(new: Option<T>, old: Option<T>) -> Option<T> {
    match new {
        Some(v) => Some(v),
        None => old,
    }
}

/// The interfaces whose hardware address is not in `remove`, in their
/// order.
pub open spec fn retain_nics(nics: Seq<NICView>, remove: Seq<Seq<char>>) -> Seq<NICView>
    decreases nics.len(),
{
    if nics.len() == 0 {
        nics
    } else if remove.contains(nics.last().mac) {
        retain_nics(nics.drop_last(), remove)
    } else {
        retain_nics(nics.drop_last(), remove).push(nics.last())
    }
}

/// The last value in a list of optional values, else `old`.
pub open spec fn last_some<T>(values: Seq<Option<T>>, old: T) -> T
    decreases values.len(),
{
    if values.len() == 0 {
        old
    } else {
        match values.last() {
            Some(v) => v,
            None => last_some(values.drop_last(), old),
        }
    }
}

/// What a change says of a value of the interface with the address `mac`:
/// nothing where the change is for another interface.
pub open spec fn for_mac<T>(u: NICUpdateView, mac: Seq<char>, value: Option<T>) -> Option<T> {
    if u.mac == mac {
        value
    } else {
        None
    }
}

pub open spec fn interface_values(ups: Seq<NICUpdateView>, mac: Seq<char>) -> Seq<
    Option<Seq<char>>,
> {
    Seq::new(ups.len(), |i: int| for_mac(ups[i], mac, ups[i].interface))
}

/// What a change says of the VLAN: a new one, or nothing.
pub open spec fn vlan_change(vlan: Option<u16>) -> Option<Option<u16>> {
    match vlan {
        Some(v) => Some(Some(v)),
        None => None,
    }
}

pub open spec fn vlan_values(ups: Seq<NICUpdateView>, mac: Seq<char>) -> Seq<Option<Option<u16>>> {
    Seq::new(ups.len(), |i: int| for_mac(ups[i], mac, vlan_change(ups[i].vlan)))
}

pub open spec fn nic_tag_values(ups: Seq<NICUpdateView>, mac: Seq<char>) -> Seq<
    Option<Seq<char>>,
> {
    Seq::new(ups.len(), |i: int| for_mac(ups[i], mac, ups[i].nic_tag))
}

pub open spec fn ip_values(ups: Seq<NICUpdateView>, mac: Seq<char>) -> Seq<Option<Seq<char>>> {
    Seq::new(ups.len(), |i: int| for_mac(ups[i], mac, ups[i].ip))
}

pub open spec fn netmask_values(ups: Seq<NICUpdateView>, mac: Seq<char>) -> Seq<
    Option<Seq<char>>,
> {
    Seq::new(ups.len(), |i: int| for_mac(ups[i], mac, ups[i].netmask))
}

pub open spec fn gateway_values(ups: Seq<NICUpdateView>, mac: Seq<char>) -> Seq<
    Option<Seq<char>>,
> {
    Seq::new(ups.len(), |i: int| for_mac(ups[i], mac, ups[i].gateway))
}

pub open spec fn primary_values(ups: Seq<NICUpdateView>, mac: Seq<char>) -> Seq<Option<bool>> {
    Seq::new(ups.len(), |i: int| for_mac(ups[i], mac, ups[i].primary))
}

/// An interface after the changes `ups`: each value is that of the last
/// change for the interface's hardware address that names one, and the
/// interface's own where none does. The VLAN can be set but not taken away.
pub open spec fn update_nic(n: NICView, ups: Seq<NICUpdateView>) -> NICView {
    NICView {
        interface: last_some(interface_values(ups, n.mac), n.interface),
        vlan: last_some(vlan_values(ups, n.mac), n.vlan),
        nic_tag: last_some(nic_tag_values(ups, n.mac), n.nic_tag),
        ip: last_some(ip_values(ups, n.mac), n.ip),
        netmask: last_some(netmask_values(ups, n.mac), n.netmask),
        gateway: last_some(gateway_values(ups, n.mac), n.gateway),
        primary: last_some(primary_values(ups, n.mac), n.primary),
        ..n
    }
}

/// Each of the interfaces after the changes `ups`.
pub open spec fn update_nics(nics: Seq<NICView>, ups: Seq<NICUpdateView>) -> Seq<NICView> {
    Seq::new(nics.len(), |i: int| update_nic(nics[i], ups))
}

impl JailUpdateView {
    /// The interfaces after this change: those that are not removed, then
    /// those that are added, each with the changes for its hardware address.
    pub open spec fn apply_nics(self, nics: Seq<NICView>) -> Seq<NICView> {
        update_nics(retain_nics(nics, self.remove_nics) + self.add_nics, self.update_nics)
    }

    /// The configuration after this change.
    pub open spec fn apply(self, c: JailConfigView) -> JailConfigView {
        JailConfigView {
            autostart: or_value(self.autostart, c.autostart),
            alias: or_value(self.alias, c.alias),
            hostname: or_value(self.hostname, c.hostname),
            max_physical_memory: or_value(self.max_physical_memory, c.max_physical_memory),
            cpu_cap: or_value(self.cpu_cap, c.cpu_cap),
            max_lwps: or_value(self.max_lwps, c.max_lwps),
            dns_domain: or_value(self.dns_domain, c.dns_domain),
            max_shm_memory: or_option(self.max_shm_memory, c.max_shm_memory),
            max_locked_memory: or_option(self.max_locked_memory, c.max_locked_memory),
            archive_on_delete: or_option(self.archive_on_delete, c.archive_on_delete),
            billing_id: or_option(self.billing_id, c.billing_id),
            do_not_inventory: or_option(self.do_not_inventory, c.do_not_inventory),
            owner_uuid: or_option(self.owner_uuid, c.owner_uuid),
            package_name: or_option(self.package_name, c.package_name),
            package_version: or_option(self.package_version, c.package_version),
            nics: self.apply_nics(c.nics),
            ..c
        }
    }

    /// Whether every interface that this change adds is also among those
    /// that it removes.
    pub open spec fn adds_only_removed(self) -> bool {
        forall|i: int|
            0 <= i < self.add_nics.len() ==> self.remove_nics.contains(
                (#[trigger] self.add_nics[i]).mac,
            )
    }
}

/// Looking twice for the last value finds what looking once finds.
pub proof fn lemma_last_some_twice<T>(values: Seq<Option<T>>, old: T)
    ensures
        last_some(values, last_some(values, old)) == last_some(values, old),
    decreases values.len(),
{
    if values.len() > 0 {
        if values.last() is None {
            lemma_last_some_last_none(values, old);
            lemma_last_some_last_none(values, last_some(values, old));
            lemma_last_some_twice(values.drop_last(), old);
        }
    }
}

proof fn lemma_last_some_last_none<T>(values: Seq<Option<T>>, old: T)
    requires
        values.len() > 0,
        values.last() is None,
    ensures
        last_some(values, old) == last_some(values.drop_last(), old),
{
}

/// Changing an interface twice gives what changing it once gives.
pub proof fn lemma_update_nic_twice(n: NICView, ups: Seq<NICUpdateView>)
    ensures
        update_nic(n, ups).mac == n.mac,
        update_nic(update_nic(n, ups), ups) == update_nic(n, ups),
{
    lemma_last_some_twice(interface_values(ups, n.mac), n.interface);
    lemma_last_some_twice(vlan_values(ups, n.mac), n.vlan);
    lemma_last_some_twice(nic_tag_values(ups, n.mac), n.nic_tag);
    lemma_last_some_twice(ip_values(ups, n.mac), n.ip);
    lemma_last_some_twice(netmask_values(ups, n.mac), n.netmask);
    lemma_last_some_twice(gateway_values(ups, n.mac), n.gateway);
    lemma_last_some_twice(primary_values(ups, n.mac), n.primary);
}

/// Removing from two lists in a row is removing from each.
pub proof fn lemma_retain_concat(a: Seq<NICView>, b: Seq<NICView>, remove: Seq<Seq<char>>)
    ensures
        retain_nics(a + b, remove) == retain_nics(a, remove) + retain_nics(b, remove),
    decreases b.len(),
{
    if b.len() == 0 {
        assert(a + b =~= a);
        assert(retain_nics(a, remove) + retain_nics(b, remove) =~= retain_nics(a, remove));
    } else {
        lemma_retain_concat(a, b.drop_last(), remove);
        assert((a + b).drop_last() =~= a + b.drop_last());
        assert((a + b).last() == b.last());
        if !remove.contains(b.last().mac) {
            assert(retain_nics(a, remove) + retain_nics(b.drop_last(), remove).push(b.last())
                =~= (retain_nics(a, remove) + retain_nics(b.drop_last(), remove)).push(b.last()));
        }
    }
}

/// Removing twice leaves what removing once leaves, and every interface
/// that is left has an address that is not listed.
pub proof fn lemma_retain_twice(nics: Seq<NICView>, remove: Seq<Seq<char>>)
    ensures
        retain_nics(retain_nics(nics, remove), remove) == retain_nics(nics, remove),
    decreases nics.len(),
{
    if nics.len() > 0 {
        lemma_retain_twice(nics.drop_last(), remove);
        if !remove.contains(nics.last().mac) {
            let kept = retain_nics(nics.drop_last(), remove);
            assert(kept.push(nics.last()).drop_last() =~= kept);
        }
    }
}

/// A list of interfaces whose addresses are all listed is removed whole.
pub proof fn lemma_retain_all_listed(nics: Seq<NICView>, remove: Seq<Seq<char>>)
    requires
        forall|i: int| 0 <= i < nics.len() ==> remove.contains((#[trigger] nics[i]).mac),
    ensures
        retain_nics(nics, remove).len() == 0,
    decreases nics.len(),
{
    if nics.len() > 0 {
        let head = nics.drop_last();
        assert forall|i: int| 0 <= i < head.len() implies remove.contains(
            (#[trigger] head[i]).mac,
        ) by {
            assert(head[i] == nics[i]);
        }
        lemma_retain_all_listed(head, remove);
        assert(nics.last() == nics[nics.len() - 1]);
    }
}

/// Changing interfaces does not change which of them are removed.
pub proof fn lemma_retain_updated(
    nics: Seq<NICView>,
    ups: Seq<NICUpdateView>,
    remove: Seq<Seq<char>>,
)
    ensures
        retain_nics(update_nics(nics, ups), remove) == update_nics(
            retain_nics(nics, remove),
            ups,
        ),
    decreases nics.len(),
{
    if nics.len() == 0 {
        assert(update_nics(nics, ups) =~= nics);
        assert(update_nics(retain_nics(nics, remove), ups) =~= retain_nics(nics, remove));
    } else {
        let head = nics.drop_last();
        lemma_retain_updated(head, ups, remove);
        let all = update_nics(nics, ups);
        assert(all.drop_last() =~= update_nics(head, ups));
        assert(all.last() == update_nic(nics.last(), ups));
        assert(all.last().mac == nics.last().mac);
        if !remove.contains(nics.last().mac) {
            assert(update_nics(retain_nics(head, remove).push(nics.last()), ups)
                =~= update_nics(retain_nics(head, remove), ups).push(
                update_nic(nics.last(), ups),
            ));
        }
    }
}

/// Applying a change a second time changes nothing more, provided that
/// every interface it adds is among those it removes: any other interface
/// that it adds would be added once more.
pub proof fn lemma_apply_idempotent(u: JailUpdateView, c: JailConfigView)
    requires
        u.adds_only_removed(),
    ensures
        u.apply(u.apply(c)) == u.apply(c),
{
    let kept = retain_nics(c.nics, u.remove_nics);
    let once = update_nics(kept + u.add_nics, u.update_nics);
    assert(u.apply(c).nics == once);
    lemma_retain_updated(kept + u.add_nics, u.update_nics, u.remove_nics);
    lemma_retain_concat(kept, u.add_nics, u.remove_nics);
    lemma_retain_twice(c.nics, u.remove_nics);
    lemma_retain_all_listed(u.add_nics, u.remove_nics);
    assert(retain_nics(kept + u.add_nics, u.remove_nics) =~= kept);
    assert(retain_nics(once, u.remove_nics) == update_nics(kept, u.update_nics));
    let twice = update_nics(update_nics(kept, u.update_nics) + u.add_nics, u.update_nics);
    assert(u.apply(u.apply(c)).nics == twice);
    assert(twice =~= once) by {
        assert forall|i: int| 0 <= i < once.len() implies twice[i] == once[i] by {
            if i < kept.len() {
                lemma_update_nic_twice(kept[i], u.update_nics);
            }
        }
    }
}

/// Whether `mac` is in a list of hardware addresses.
pub fn listed(macs: &Vec<String>, mac: &str) -> (r: bool)
    ensures
        r == texts(macs@).contains(mac@),
{
    let mut i: usize = 0;
    while i < macs.len()
        invariant
            i <= macs@.len(),
            forall|j: int| 0 <= j < i ==> texts(macs@)[j] != mac@,
        decreases macs@.len() - i,
    {
        if str_eq(macs[i].as_str(), mac) {
            assert(texts(macs@)[i as int] == mac@);
            return true;
        }
        i = i + 1;
    }
    false
}

/// An interface after the changes `ups`.
pub fn updated_nic(nic: &NIC, ups: &Vec<NICUpdate>) -> (r: NIC)
    ensures
        r@ == update_nic(nic@, nic_update_views(ups@)),
{
    let mut out = nic.clone();
    let ghost all = nic_update_views(ups@);
    let ghost mac = nic@.mac;
    let mut i: usize = 0;
    while i < ups.len()
        invariant
            i <= ups@.len(),
            all == nic_update_views(ups@),
            mac == nic@.mac,
            out@.mac == mac,
            out@.mtu == nic@.mtu,
            out@.network_uuid == nic@.network_uuid,
            out@.interface == last_some(
                interface_values(all, mac).subrange(0, i as int),
                nic@.interface,
            ),
            out@.vlan == last_some(vlan_values(all, mac).subrange(0, i as int), nic@.vlan),
            out@.nic_tag == last_some(nic_tag_values(all, mac).subrange(0, i as int), nic@.nic_tag),
            out@.ip == last_some(ip_values(all, mac).subrange(0, i as int), nic@.ip),
            out@.netmask == last_some(netmask_values(all, mac).subrange(0, i as int), nic@.netmask),
            out@.gateway == last_some(gateway_values(all, mac).subrange(0, i as int), nic@.gateway),
            out@.primary == last_some(primary_values(all, mac).subrange(0, i as int), nic@.primary),
        decreases ups@.len() - i,
    {
        let u = &ups[i];
        proof {
            assert(all[i as int] == u@);
            lemma_step(interface_values(all, mac), i as int, nic@.interface);
            lemma_step(vlan_values(all, mac), i as int, nic@.vlan);
            lemma_step(nic_tag_values(all, mac), i as int, nic@.nic_tag);
            lemma_step(ip_values(all, mac), i as int, nic@.ip);
            lemma_step(netmask_values(all, mac), i as int, nic@.netmask);
            lemma_step(gateway_values(all, mac), i as int, nic@.gateway);
            lemma_step(primary_values(all, mac), i as int, nic@.primary);
        }
        if str_eq(u.mac.as_str(), out.mac.as_str()) {
            match &u.interface {
                Some(v) => {
                    out.interface = v.clone();
                },
                None => {},
            }
            match u.vlan {
                Some(v) => {
                    out.vlan = Some(v);
                },
                None => {},
            }
            match &u.nic_tag {
                Some(v) => {
                    out.nic_tag = v.clone();
                },
                None => {},
            }
            match &u.ip {
                Some(v) => {
                    out.ip = v.clone();
                },
                None => {},
            }
            match &u.netmask {
                Some(v) => {
                    out.netmask = v.clone();
                },
                None => {},
            }
            match &u.gateway {
                Some(v) => {
                    out.gateway = v.clone();
                },
                None => {},
            }
            match u.primary {
                Some(v) => {
                    out.primary = v;
                },
                None => {},
            }
        }
        i = i + 1;
    }
    proof {
        assert(interface_values(all, mac).subrange(0, i as int) =~= interface_values(all, mac));
        assert(vlan_values(all, mac).subrange(0, i as int) =~= vlan_values(all, mac));
        assert(nic_tag_values(all, mac).subrange(0, i as int) =~= nic_tag_values(all, mac));
        assert(ip_values(all, mac).subrange(0, i as int) =~= ip_values(all, mac));
        assert(netmask_values(all, mac).subrange(0, i as int) =~= netmask_values(all, mac));
        assert(gateway_values(all, mac).subrange(0, i as int) =~= gateway_values(all, mac));
        assert(primary_values(all, mac).subrange(0, i as int) =~= primary_values(all, mac));
    }
    out
}

/// The last value among the first `i + 1` is the one at `i` where there is
/// one, else the last among the first `i`.
proof fn lemma_step<T>(values: Seq<Option<T>>, i: int, old: T)
    requires
        0 <= i < values.len(),
    ensures
        last_some(values.subrange(0, i + 1), old) == (match values[i] {
            Some(v) => v,
            None => last_some(values.subrange(0, i), old),
        }),
{
    let next = values.subrange(0, i + 1);
    assert(next.drop_last() =~= values.subrange(0, i));
    assert(next.last() == values[i]);
}

impl JailUpdate {
    /// The change that changes nothing.
    pub fn empty() -> (r: JailUpdate)
        ensures
            r@.alias is None,
            r@.hostname is None,
            r@.autostart is None,
            r@.max_physical_memory is None,
            r@.cpu_cap is None,
            r@.max_shm_memory is None,
            r@.max_locked_memory is None,
            r@.max_lwps is None,
            r@.archive_on_delete is None,
            r@.billing_id is None,
            r@.do_not_inventory is None,
            r@.dns_domain is None,
            r@.owner_uuid is None,
            r@.package_name is None,
            r@.package_version is None,
            r@.add_nics.len() == 0,
            r@.remove_nics.len() == 0,
            r@.update_nics.len() == 0,
    {
        JailUpdate {
            alias: None,
            hostname: None,
            autostart: None,
            max_physical_memory: None,
            cpu_cap: None,
            max_shm_memory: None,
            max_locked_memory: None,
            max_lwps: None,
            archive_on_delete: None,
            billing_id: None,
            do_not_inventory: None,
            dns_domain: None,
            owner_uuid: None,
            package_name: None,
            package_version: None,
            add_nics: Vec::new(),
            remove_nics: Vec::new(),
            update_nics: Vec::new(),
        }
    }

    /// The interfaces after this change.
    pub fn apply_nics(&self, nics: &Vec<NIC>) -> (r: Vec<NIC>)
        ensures
            nic_views(r@) == self@.apply_nics(nic_views(nics@)),
    {
        let mut out: Vec<NIC> = Vec::new();
        let ghost before = nic_views(nics@);
        let ghost ups = self@.update_nics;
        let mut i: usize = 0;
        assert(before.subrange(0, 0) =~= Seq::<NICView>::empty());
        assert(nic_views(out@) =~= update_nics(
            retain_nics(before.subrange(0, 0), self@.remove_nics),
            ups,
        ));
        while i < nics.len()
            invariant
                i <= nics@.len(),
                before == nic_views(nics@),
                ups == self@.update_nics,
                nic_views(out@) == update_nics(
                    retain_nics(before.subrange(0, i as int), self@.remove_nics),
                    ups,
                ),
            decreases nics@.len() - i,
        {
            let ghost kept = retain_nics(before.subrange(0, i as int), self@.remove_nics);
            proof {
                let next = before.subrange(0, i + 1);
                assert(next.drop_last() =~= before.subrange(0, i as int));
                assert(next.last() == nics@[i as int]@);
            }
            if !listed(&self.remove_nics, nics[i].mac.as_str()) {
                let n = updated_nic(&nics[i], &self.update_nics);
                let ghost was = nic_views(out@);
                out.push(n);
                assert(nic_views(out@) =~= was.push(n@));
                assert(update_nics(kept.push(nics@[i as int]@), ups) =~= update_nics(kept, ups).push(
                    n@,
                ));
            }
            i = i + 1;
        }
        assert(before.subrange(0, i as int) =~= before);
        let ghost kept = retain_nics(before, self@.remove_nics);
        let mut j: usize = 0;
        assert(self@.add_nics.subrange(0, 0) =~= Seq::<NICView>::empty());
        assert(kept + self@.add_nics.subrange(0, 0) =~= kept);
        while j < self.add_nics.len()
            invariant
                j <= self.add_nics@.len(),
                ups == self@.update_nics,
                nic_views(out@) == update_nics(kept + self@.add_nics.subrange(0, j as int), ups),
            decreases self.add_nics@.len() - j,
        {
            let n = updated_nic(&self.add_nics[j], &self.update_nics);
            let ghost was = nic_views(out@);
            out.push(n);
            proof {
                let sofar = kept + self@.add_nics.subrange(0, j as int);
                let next = kept + self@.add_nics.subrange(0, j + 1);
                assert(next =~= sofar.push(self.add_nics@[j as int]@));
                assert(nic_views(out@) =~= was.push(n@));
                assert(update_nics(next, ups) =~= update_nics(sofar, ups).push(n@));
            }
            j = j + 1;
        }
        assert(self@.add_nics.subrange(0, j as int) =~= self@.add_nics);
        out
    }

    /// Applies this change to a configuration.
    pub fn apply(&self, config: JailConfig) -> (r: JailConfig)
        ensures
            r@ == self@.apply(config@),
            r@.uuid == config@.uuid,
            r@.image_uuid == config@.image_uuid,
            r@.quota == config@.quota,
    {
        let nics = self.apply_nics(&config.nics);
        JailConfig {
            brand: config.brand,
            uuid: config.uuid,
            image_uuid: config.image_uuid,
            alias: new_text(&self.alias, config.alias),
            hostname: new_text(&self.hostname, config.hostname),
            autostart: new_value(self.autostart, config.autostart),
            max_physical_memory: new_value(self.max_physical_memory, config.max_physical_memory),
            cpu_cap: new_value(self.cpu_cap, config.cpu_cap),
            quota: config.quota,
            max_shm_memory: new_option(self.max_shm_memory, config.max_shm_memory),
            max_locked_memory: new_option(self.max_locked_memory, config.max_locked_memory),
            nics,
            max_lwps: new_value(self.max_lwps, config.max_lwps),
            archive_on_delete: new_option(self.archive_on_delete, config.archive_on_delete),
            billing_id: new_uuid_option(self.billing_id, config.billing_id),
            do_not_inventory: new_option(self.do_not_inventory, config.do_not_inventory),
            dns_domain: new_text(&self.dns_domain, config.dns_domain),
            indestructible_delegated: config.indestructible_delegated,
            indestructible_zoneroot: config.indestructible_zoneroot,
            owner_uuid: new_uuid_option(self.owner_uuid, config.owner_uuid),
            package_name: new_text_option(&self.package_name, config.package_name),
            package_version: new_text_option(&self.package_version, config.package_version),
        }
    }
}

/// The new value where there is one, else the old one.
fn new_value<T: Copy>(new: Option<T>, old: T) -> (r: T)
    ensures
        r == or_value(new, old),
{
    match new {
        Some(v) => v,
        None => old,
    }
}

/// The new value where there is one, else the old one, which may be absent.
fn new_option<T: Copy>(new: Option<T>, old: Option<T>) -> (r: Option<T>)
    ensures
        r == or_option(new, old),
{
    match new {
        Some(v) => Some(v),
        None => old,
    }
}

/// The new identifier where there is one, else the old one.
fn new_uuid_option(new: Option<Uuid>, old: Option<Uuid>) -> (r: Option<Uuid>)
    ensures
        uuid_option_view(r) == or_option(uuid_option_view(new), uuid_option_view(old)),
{
    match new {
        Some(v) => Some(v),
        None => old,
    }
}

/// The new text where there is one, else the old one.
fn new_text(new: &Option<String>, old: String) -> (r: String)
    ensures
        r@ == or_value(text_option_view(*new), old@),
{
    match new {
        Some(v) => v.clone(),
        None => old,
    }
}

/// The new text where there is one, else the old one, which may be absent.
fn new_text_option(new: &Option<String>, old: Option<String>) -> (r: Option<String>)
    ensures
        text_option_view(r) == or_option(text_option_view(*new), text_option_view(old)),
{
    match new {
        Some(v) => Some(v.clone()),
        None => old,
    }
}

/// The hardware addresses where an input names none.
pub fn empty_macs() -> (r: Vec<String>)
    ensures
        r@.len() == 0,
{
    Vec::new()
}

/// The changes to interfaces where an input names none.
pub fn empty_nic_update() -> (r: Vec<NICUpdate>)
    ensures
        r@.len() == 0,
{
    Vec::new()
}

/// The change that changes nothing leaves every configuration as it is.
pub proof fn lemma_empty_changes_nothing(u: JailUpdateView, c: JailConfigView)
    requires
        u.alias is None,
        u.hostname is None,
        u.autostart is None,
        u.max_physical_memory is None,
        u.cpu_cap is None,
        u.max_shm_memory is None,
        u.max_locked_memory is None,
        u.max_lwps is None,
        u.archive_on_delete is None,
        u.billing_id is None,
        u.do_not_inventory is None,
        u.dns_domain is None,
        u.owner_uuid is None,
        u.package_name is None,
        u.package_version is None,
        u.add_nics.len() == 0,
        u.remove_nics.len() == 0,
        u.update_nics.len() == 0,
    ensures
        u.apply(c) == c,
{
    lemma_retain_none(c.nics, u.remove_nics);
    assert(c.nics + u.add_nics =~= c.nics);
    assert(update_nics(c.nics, u.update_nics) =~= c.nics) by {
        assert forall|i: int| 0 <= i < c.nics.len() implies update_nic(c.nics[i], u.update_nics)
            == c.nics[i] by {
            let n = c.nics[i];
            assert(interface_values(u.update_nics, n.mac).len() == 0);
            assert(vlan_values(u.update_nics, n.mac).len() == 0);
            assert(nic_tag_values(u.update_nics, n.mac).len() == 0);
            assert(ip_values(u.update_nics, n.mac).len() == 0);
            assert(netmask_values(u.update_nics, n.mac).len() == 0);
            assert(gateway_values(u.update_nics, n.mac).len() == 0);
            assert(primary_values(u.update_nics, n.mac).len() == 0);
        }
    }
}

/// With no address listed, every interface stays.
pub proof fn lemma_retain_none(nics: Seq<NICView>, remove: Seq<Seq<char>>)
    requires
        remove.len() == 0,
    ensures
        retain_nics(nics, remove) == nics,
    decreases nics.len(),
{
    if nics.len() > 0 {
        lemma_retain_none(nics.drop_last(), remove);
        assert(nics.drop_last().push(nics.last()) =~= nics);
    }
}

} // verus!
