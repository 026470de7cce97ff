//! The configuration of a jail: its model, its validation, the resource
//! limits it asks for and the start-up script of its network interfaces.

use crate::command::{args3, call, fatal, Command, Step};
use crate::config::Config;
use crate::errors::{
    validation_views, Error, ErrorView, GenericError, ValidationError, ValidationErrorView,
    ValidationErrors,
};
use crate::text::{
    decimal, hex_short, hex_short_string, join_spec, trim, trim_spec, u64_to_string,
};
use crate::uuid::{hyphenated_spec, Uuid};
use vstd::prelude::*;

verus! {

/// The view of an optional identifier.
pub open spec fn uuid_option_view(u: Option<Uuid>) -> Option<Seq<u8>> {
    match u {
        Some(u) => Some(u@),
        None => None,
    }
}

/// The view of an optional text.
pub open spec fn text_option_view(s: Option<String>) -> Option<Seq<char>> {
    match s {
        Some(s) => Some(s@),
        None => None,
    }
}

/// A copy of an optional text.
pub fn copy_text_option(s: &Option<String>) -> (r: Option<String>)
    ensures
        text_option_view(r) == text_option_view(*s),
{
    match s {
        Some(s) => Some(s.clone()),
        None => None,
    }
}

/// A network interface of a jail.
#[derive(Debug, PartialEq)]
pub struct NIC {
    /// The name of the interface inside the jail.
    pub interface: String,
    /// The hardware address, as hexadecimal bytes with colons between them.
    pub mac: String,
    /// The VLAN that the interface is on, if any.
    pub vlan: Option<u16>,
    /// The tag of the network that the interface is attached to.
    pub nic_tag: String,
    /// The address of the interface.
    pub ip: String,
    /// The network mask of the interface.
    pub netmask: String,
    /// The gateway of the interface's network.
    pub gateway: String,
    /// Whether the gateway of this interface is the default route.
    pub primary: bool,
    /// The largest packet that the interface sends.
    pub mtu: Option<u32>,
    /// The identifier of the network.
    pub network_uuid: Option<Uuid>,
}

/// What a network interface says, as plain values.
pub struct NICView {
    pub interface: Seq<char>,
    pub mac: Seq<char>,
    pub vlan: Option<u16>,
    pub nic_tag: Seq<char>,
    pub ip: Seq<char>,
    pub netmask: Seq<char>,
    pub gateway: Seq<char>,
    pub primary: bool,
    pub mtu: Option<u32>,
    pub network_uuid: Option<Seq<u8>>,
}

impl View for NIC {
    type V = NICView;

    open spec fn view(&self) -> NICView {
        NICView {
            interface: self.interface@,
            mac: self.mac@,
            vlan: self.vlan,
            nic_tag: self.nic_tag@,
            ip: self.ip@,
            netmask: self.netmask@,
            gateway: self.gateway@,
            primary: self.primary,
            mtu: self.mtu,
            network_uuid: uuid_option_view(self.network_uuid),
        }
    }
}

impl Clone for NIC {
    fn clone(&self) -> (r: NIC)
        ensures
            r@ == self@,
    {
        NIC {
            interface: self.interface.clone(),
            mac: self.mac.clone(),
            vlan: self.vlan,
            nic_tag: self.nic_tag.clone(),
            ip: self.ip.clone(),
            netmask: self.netmask.clone(),
            gateway: self.gateway.clone(),
            primary: self.primary,
            mtu: self.mtu,
            network_uuid: self.network_uuid,
        }
    }
}

/// The views of a list of network interfaces.
pub open spec fn nic_views(nics: Seq<NIC>) -> Seq<NICView> {
    Seq::new(nics.len(), |i: int| nics[i]@)
}

/// A copy of a list of network interfaces.
pub fn copy_nics(nics: &Vec<NIC>) -> (r: Vec<NIC>)
    ensures
        nic_views(r@) == nic_views(nics@),
{
    let mut out: Vec<NIC> = Vec::new();
    let mut i: usize = 0;
    while i < nics.len()
        invariant
            i <= nics@.len(),
            out@.len() == i,
            forall|j: int| 0 <= j < i ==> out@[j]@ == nics@[j]@,
        decreases nics@.len() - i,
    {
        out.push(nics[i].clone());
        i = i + 1;
    }
    assert(nic_views(out@) =~= nic_views(nics@));
    out
}

/// The configuration of a jail.
#[derive(Debug, PartialEq)]
pub struct JailConfig {
    /// The brand of the jail.
    pub brand: String,
    /// The identifier of the jail.
    pub uuid: Uuid,
    /// The identifier of the image that the jail is made from.
    pub image_uuid: Uuid,
    /// A readable name of the jail.
    pub alias: String,
    /// The host name of the jail.
    pub hostname: String,
    /// Whether the jail starts when the host does.
    pub autostart: bool,
    /// The physical memory that the jail may use, in megabytes.
    pub max_physical_memory: u64,
    /// The share of processor time that the jail may use, in percent of one
    /// core.
    pub cpu_cap: u64,
    /// The storage that the jail may use. It is kept with the jail and
    /// not applied to its dataset.
    pub quota: u64,
    /// The shared memory that the jail may use, in megabytes.
    pub max_shm_memory: Option<u64>,
    /// The memory that the jail may lock, in megabytes.
    pub max_locked_memory: Option<u64>,
    /// The network interfaces of the jail.
    pub nics: Vec<NIC>,
    /// The number of processes that the jail may run.
    pub max_lwps: u64,
    pub archive_on_delete: Option<bool>,
    pub billing_id: Option<Uuid>,
    pub do_not_inventory: Option<bool>,
    pub dns_domain: String,
    pub indestructible_delegated: Option<bool>,
    pub indestructible_zoneroot: Option<bool>,
    pub owner_uuid: Option<Uuid>,
    pub package_name: Option<String>,
    pub package_version: Option<String>,
}

/// What the configuration of a jail says, as plain values.
pub struct JailConfigView {
    pub brand: Seq<char>,
    pub uuid: Seq<u8>,
    pub image_uuid: Seq<u8>,
    pub alias: Seq<char>,
    pub hostname: Seq<char>,
    pub autostart: bool,
    pub max_physical_memory: u64,
    pub cpu_cap: u64,
    pub quota: u64,
    pub max_shm_memory: Option<u64>,
    pub max_locked_memory: Option<u64>,
    pub nics: Seq<NICView>,
    pub max_lwps: u64,
    pub archive_on_delete: Option<bool>,
    pub billing_id: Option<Seq<u8>>,
    pub do_not_inventory: Option<bool>,
    pub dns_domain: Seq<char>,
    pub indestructible_delegated: Option<bool>,
    pub indestructible_zoneroot: Option<bool>,
    pub owner_uuid: Option<Seq<u8>>,
    pub package_name: Option<Seq<char>>,
    pub package_version: Option<Seq<char>>,
}

impl View for JailConfig {
    type V = JailConfigView;

    open spec fn view(&self) -> JailConfigView {
        JailConfigView {
            brand: self.brand@,
            uuid: self.uuid@,
            image_uuid: self.image_uuid@,
            alias: self.alias@,
            hostname: self.hostname@,
            autostart: self.autostart,
            max_physical_memory: self.max_physical_memory,
            cpu_cap: self.cpu_cap,
            quota: self.quota,
            max_shm_memory: self.max_shm_memory,
            max_locked_memory: self.max_locked_memory,
            nics: nic_views(self.nics@),
            max_lwps: self.max_lwps,
            archive_on_delete: self.archive_on_delete,
            billing_id: uuid_option_view(self.billing_id),
            do_not_inventory: self.do_not_inventory,
            dns_domain: self.dns_domain@,
            indestructible_delegated: self.indestructible_delegated,
            indestructible_zoneroot: self.indestructible_zoneroot,
            owner_uuid: uuid_option_view(self.owner_uuid),
            package_name: text_option_view(self.package_name),
            package_version: text_option_view(self.package_version),
        }
    }
}

impl Clone for JailConfig {
    fn clone(&self) -> (r: JailConfig)
        ensures
            r@ == self@,
    {
        JailConfig {
            brand: self.brand.clone(),
            uuid: self.uuid,
            image_uuid: self.image_uuid,
            alias: self.alias.clone(),
            hostname: self.hostname.clone(),
            autostart: self.autostart,
            max_physical_memory: self.max_physical_memory,
            cpu_cap: self.cpu_cap,
            quota: self.quota,
            max_shm_memory: self.max_shm_memory,
            max_locked_memory: self.max_locked_memory,
            nics: copy_nics(&self.nics),
            max_lwps: self.max_lwps,
            archive_on_delete: self.archive_on_delete,
            billing_id: self.billing_id,
            do_not_inventory: self.do_not_inventory,
            dns_domain: self.dns_domain.clone(),
            indestructible_delegated: self.indestructible_delegated,
            indestructible_zoneroot: self.indestructible_zoneroot,
            owner_uuid: self.owner_uuid,
            package_name: copy_text_option(&self.package_name),
            package_version: copy_text_option(&self.package_version),
        }
    }
}

/// The value of a flag that an input leaves out.
pub fn dflt_false() -> (r: bool)
    ensures
        !r,
{
    false
}

/// The number of processes where an input names none.
pub fn dflt_max_lwp() -> (r: u64)
    ensures
        r == 2000,
{
    2000
}

/// The identifier of a jail where an input names none: a fresh random one.
pub fn new_uuid() -> (r: Uuid)
    ensures
        r.is_v4(),
{
    Uuid::new_v4()
}

/// The network interfaces where an input names none.
pub fn empty_nics() -> (r: Vec<NIC>)
    ensures
        r@.len() == 0,
{
    Vec::new()
}

/// A random byte.
///
/// Calls `rand::random::<u8>`, which draws from the thread's generator.
/// Nothing is claimed of the byte.
#[verifier::external_body]
fn random_byte() -> u8 {
    rand::random::<u8>()
}

/// The hardware address with the given six bytes: each byte in hexadecimal
/// without a leading zero, with colons between the bytes.
pub open spec fn mac_spec(b: Seq<u8>) -> Seq<char>
    recommends
        b.len() == 6,
{
    hex_short(b[0]) + ":"@ + hex_short(b[1]) + ":"@ + hex_short(b[2]) + ":"@ + hex_short(b[3])
        + ":"@ + hex_short(b[4]) + ":"@ + hex_short(b[5])
}

/// Writes six bytes as a hardware address.
pub fn mac_from_bytes(b: [u8; 6]) -> (r: String)
    ensures
        r@ == mac_spec(b@),
{
    let mut s = hex_short_string(b[0]);
    let h = hex_short_string(b[1]);
    s.append(":");
    s.append(h.as_str());
    let h = hex_short_string(b[2]);
    s.append(":");
    s.append(h.as_str());
    let h = hex_short_string(b[3]);
    s.append(":");
    s.append(h.as_str());
    let h = hex_short_string(b[4]);
    s.append(":");
    s.append(h.as_str());
    let h = hex_short_string(b[5]);
    s.append(":");
    s.append(h.as_str());
    assert(s@ =~= mac_spec(b@));
    s
}

/// A random hardware address.
pub fn new_mac() -> (r: String)
    ensures
        exists|b: Seq<u8>| b.len() == 6 && r@ == mac_spec(b),
{
    let b = [
        random_byte(),
        random_byte(),
        random_byte(),
        random_byte(),
        random_byte(),
        random_byte(),
    ];
    let r = mac_from_bytes(b);
    assert(b@.len() == 6 && r@ == mac_spec(b@));
    r
}

/// One rule of resource control: the jail, the resource, and the amount at
/// which further use is denied.
pub open spec fn rctl_rule(uuid: Seq<u8>, resource: Seq<char>, amount: u64, unit: Seq<char>) -> Seq<
    char,
> {
    "jail:"@ + hyphenated_spec(uuid) + ":"@ + resource + ":deny="@ + decimal(amount as nat) + unit
}

/// An optional amount of memory, or the physical memory in its place.
pub open spec fn memory_or(amount: Option<u64>, physical: u64) -> u64 {
    match amount {
        Some(n) => n,
        None => physical,
    }
}

impl JailConfigView {
    /// The arguments that set the resource limits of the jail: the flag
    /// `-a`, then the rules for memory use, locked memory, shared memory,
    /// processor time and the number of processes, in this order.
    pub open spec fn rctl_limits(self) -> Seq<Seq<char>> {
        seq![
            "-a"@,
            rctl_rule(self.uuid, "memoryuse"@, self.max_physical_memory, "M"@),
            rctl_rule(
                self.uuid,
                "memorylocked"@,
                memory_or(self.max_locked_memory, self.max_physical_memory),
                "M"@,
            ),
            rctl_rule(
                self.uuid,
                "shmsize"@,
                memory_or(self.max_shm_memory, self.max_physical_memory),
                "M"@,
            ),
            rctl_rule(self.uuid, "pcpu"@, self.cpu_cap, ""@),
            rctl_rule(self.uuid, "maxproc"@, self.max_lwps, ""@),
        ]
    }
}

/// Writes one rule of resource control.
fn rule(id: &str, resource: &str, amount: u64, unit: &str) -> (r: String)
    ensures
        r@ == "jail:"@ + id@ + ":"@ + resource@ + ":deny="@ + decimal(amount as nat) + unit@,
{
    let mut s = String::from_str("jail:");
    s.append(id);
    s.append(":");
    s.append(resource);
    s.append(":deny=");
    let n = u64_to_string(amount);
    s.append(n.as_str());
    s.append(unit);
    s
}

impl JailConfig {
    /// The arguments that set the resource limits of the jail.
    pub fn rctl_limits(&self) -> (r: Vec<String>)
        ensures
            crate::text::texts(r@) == self@.rctl_limits(),
            r@.len() == 6,
            r@[0]@ == "-a"@,
    {
        let id = self.uuid.hyphenated();
        let physical = self.max_physical_memory;
        let locked = match self.max_locked_memory {
            Some(n) => n,
            None => physical,
        };
        let shm = match self.max_shm_memory {
            Some(n) => n,
            None => physical,
        };
        let mut res: Vec<String> = Vec::new();
        res.push(String::from_str("-a"));
        res.push(rule(id.as_str(), "memoryuse", physical, "M"));
        res.push(rule(id.as_str(), "memorylocked", locked, "M"));
        res.push(rule(id.as_str(), "shmsize", shm, "M"));
        res.push(rule(id.as_str(), "pcpu", self.cpu_cap, ""));
        res.push(rule(id.as_str(), "maxproc", self.max_lwps, ""));
        assert(crate::text::texts(res@) =~= self@.rctl_limits());
        res
    }
}

/// Whether a pattern, read as a regular expression, matches in a text:
/// `None` where the pattern is no regular expression.
pub uninterp spec fn regex_match(pattern: Seq<char>, text: Seq<char>) -> Option<bool>;

/// Compiles a pattern and searches a text for a match.
///
/// Calls `regex::Regex::new` and then `regex::Regex::is_match`. Both depend
/// on the pattern and the text alone; what they compute is not stated here
/// but named.
#[verifier::external_body]
fn pattern_matches(pattern: &str, text: &str) -> (r: Option<bool>)
    ensures
        r == regex_match(pattern@, text@),
{
    match regex::Regex::new(pattern) {
        Ok(re) => Some(re.is_match(text)),
        Err(_) => None,
    }
}

/// The pattern of a host name or an alias.
pub open spec fn name_pattern() -> Seq<char> {
    "^[a-zA-Z0-9]([a-zA-Z0-9-]{0,253}[a-zA-Z0-9])?$"@
}

/// The pattern of the name of an interface.
pub open spec fn interface_pattern() -> Seq<char> {
    "^[a-zA-Z]{1,4}[0-9]{0,3}$"@
}

/// The pattern of an address in dotted decimal.
pub open spec fn ip_pattern() -> Seq<char> {
    "^(([0-9]|[1-9][0-9]|1[0-9]{2}|2[0-4][0-9]|25[0-5])\\.){3}([0-9]|[1-9][0-9]|1[0-9]{2}|2[0-4][0-9]|25[0-5])$"@
}

/// The pattern of a hardware address.
pub open spec fn mac_pattern() -> Seq<char> {
    "^[a-fA-F0-9]{1,2}([:][a-fA-F0-9]{1,2}){5}$"@
}

/// Whether a text is accepted under a pattern: the pattern is a regular
/// expression and matches.
pub open spec fn accepts(pattern: Seq<char>, text: Seq<char>) -> bool {
    regex_match(pattern, text) == Some(true)
}

/// Whether a text is accepted under a pattern.
fn accepted(pattern: &str, text: &str) -> (r: bool)
    ensures
        r == accepts(pattern@, text@),
{
    match pattern_matches(pattern, text) {
        Some(b) => b,
        None => false,
    }
}

/// What the checks of one network interface found: for each field whether
/// it is in order.
#[derive(Debug, Clone, Copy)]
pub struct NicChecks {
    pub interface: bool,
    pub ip: bool,
    pub netmask: bool,
    pub gateway: bool,
    pub mac: bool,
    pub nic_tag: bool,
}

/// The field name under which the errors of the interface at `index` are
/// reported.
pub open spec fn nic_label(index: nat) -> Seq<char> {
    "nic["@ + decimal(index) + "]"@
}

/// The errors so far, with one more where a check failed.
pub open spec fn flagged(
    errors: Seq<ValidationErrorView>,
    ok: bool,
    field: Seq<char>,
    error: Seq<char>,
) -> Seq<ValidationErrorView> {
    if ok {
        errors
    } else {
        errors.push(ValidationErrorView { field, error })
    }
}

/// The errors so far, followed by those of the interface at `index`: one
/// for each failed check, in the order interface name, address, network
/// mask, gateway, hardware address, network tag.
pub open spec fn with_nic_errors(
    errors: Seq<ValidationErrorView>,
    index: nat,
    c: NicChecks,
) -> Seq<ValidationErrorView> {
    let l = nic_label(index);
    let e1 = flagged(errors, c.interface, l, "Invalid interface name"@);
    let e2 = flagged(e1, c.ip, l, "Invalid ip"@);
    let e3 = flagged(e2, c.netmask, l, "Invalid netmask"@);
    let e4 = flagged(e3, c.gateway, l, "Invalid gateway"@);
    let e5 = flagged(e4, c.mac, l, "Invalid mac"@);
    flagged(e5, c.nic_tag, l, "Unknown nic_tag"@)
}

/// The errors so far, followed by those of all interfaces, in the order of
/// the interfaces.
pub open spec fn with_nics_errors(
    errors: Seq<ValidationErrorView>,
    checks: Seq<NicChecks>,
) -> Seq<ValidationErrorView>
    decreases checks.len(),
{
    if checks.len() == 0 {
        errors
    } else {
        with_nic_errors(
            with_nics_errors(errors, checks.drop_last()),
            (checks.len() - 1) as nat,
            checks.last(),
        )
    }
}

/// The errors of a configuration, given what its checks found: the host
/// name, the alias, then the interfaces.
pub open spec fn errors_from_checks(
    hostname_ok: bool,
    alias_ok: bool,
    checks: Seq<NicChecks>,
) -> Seq<ValidationErrorView> {
    let e1 = flagged(
        Seq::<ValidationErrorView>::empty(),
        hostname_ok,
        "hostname"@,
        "Invalid hostname"@,
    );
    let e2 = flagged(e1, alias_ok, "alias"@, "Invalid alias"@);
    with_nics_errors(e2, checks)
}

/// One if the check failed, zero if it passed.
pub open spec fn failed(ok: bool) -> nat {
    if ok {
        0
    } else {
        1
    }
}

/// The number of failed checks of one interface.
pub open spec fn nic_failures(c: NicChecks) -> nat {
    failed(c.interface) + failed(c.ip) + failed(c.netmask) + failed(c.gateway) + failed(c.mac)
        + failed(c.nic_tag)
}

/// The number of failed checks of all interfaces.
pub open spec fn nics_failures(checks: Seq<NicChecks>) -> nat
    decreases checks.len(),
{
    if checks.len() == 0 {
        0
    } else {
        nics_failures(checks.drop_last()) + nic_failures(checks.last())
    }
}

/// The interfaces are reported with one error for each failed check.
pub proof fn lemma_nics_error_count(errors: Seq<ValidationErrorView>, checks: Seq<NicChecks>)
    ensures
        with_nics_errors(errors, checks).len() == errors.len() + nics_failures(checks),
    decreases checks.len(),
{
    if checks.len() > 0 {
        lemma_nics_error_count(errors, checks.drop_last());
    }
}

/// A configuration is reported with exactly one error for each failed
/// check, and so with none exactly where every check passed.
pub proof fn lemma_error_count(hostname_ok: bool, alias_ok: bool, checks: Seq<NicChecks>)
    ensures
        errors_from_checks(hostname_ok, alias_ok, checks).len() == failed(hostname_ok) + failed(
            alias_ok,
        ) + nics_failures(checks),
{
    let e1 = flagged(
        Seq::<ValidationErrorView>::empty(),
        hostname_ok,
        "hostname"@,
        "Invalid hostname"@,
    );
    let e2 = flagged(e1, alias_ok, "alias"@, "Invalid alias"@);
    lemma_nics_error_count(e2, checks);
}

/// Appends an error to `errors` where a check failed.
fn push_flag(errors: &mut Vec<ValidationError>, ok: bool, field: &str, error: &str)
    ensures
        validation_views(final(errors)@) == flagged(
            validation_views(old(errors)@),
            ok,
            field@,
            error@,
        ),
{
    if !ok {
        errors.push(ValidationError::new(field, error));
    }
    assert(validation_views(errors@) =~= flagged(
        validation_views(old(errors)@),
        ok,
        field@,
        error@,
    ));
}

/// The field name under which the errors of the interface at `index` are
/// reported.
fn nic_label_string(index: usize) -> (r: String)
    ensures
        r@ == nic_label(index as nat),
{
    let mut label = String::from_str("nic[");
    let n = u64_to_string(index as u64);
    label.append(n.as_str());
    label.append("]");
    label
}

/// Appends the errors of the interface at `index` to `errors`.
fn push_nic_errors(errors: &mut Vec<ValidationError>, index: usize, c: NicChecks)
    ensures
        validation_views(final(errors)@) == with_nic_errors(
            validation_views(old(errors)@),
            index as nat,
            c,
        ),
{
    let label = nic_label_string(index);
    push_flag(errors, c.interface, label.as_str(), "Invalid interface name");
    push_flag(errors, c.ip, label.as_str(), "Invalid ip");
    push_flag(errors, c.netmask, label.as_str(), "Invalid netmask");
    push_flag(errors, c.gateway, label.as_str(), "Invalid gateway");
    push_flag(errors, c.mac, label.as_str(), "Invalid mac");
    push_flag(errors, c.nic_tag, label.as_str(), "Unknown nic_tag");
}

/// The errors of a configuration, given what its checks found; `None` where
/// every check passed.
pub fn errors_from(hostname_ok: bool, alias_ok: bool, checks: &Vec<NicChecks>) -> (r: Option<
    Vec<ValidationError>,
>)
    ensures
        match r {
            Some(errors) => errors@.len() > 0 && validation_views(errors@) == errors_from_checks(
                hostname_ok,
                alias_ok,
                checks@,
            ),
            None => errors_from_checks(hostname_ok, alias_ok, checks@).len() == 0,
        },
{
    let mut errors: Vec<ValidationError> = Vec::new();
    assert(validation_views(errors@) =~= Seq::<ValidationErrorView>::empty());
    push_flag(&mut errors, hostname_ok, "hostname", "Invalid hostname");
    push_flag(&mut errors, alias_ok, "alias", "Invalid alias");
    let ghost head = validation_views(errors@);
    let mut i: usize = 0;
    assert(checks@.subrange(0, 0) =~= Seq::<NicChecks>::empty());
    while i < checks.len()
        invariant
            i <= checks@.len(),
            validation_views(errors@) == with_nics_errors(head, checks@.subrange(0, i as int)),
        decreases checks@.len() - i,
    {
        let c = checks[i];
        push_nic_errors(&mut errors, i, c);
        proof {
            let next = checks@.subrange(0, i + 1);
            assert(next.drop_last() =~= checks@.subrange(0, i as int));
            assert(next.last() == c);
        }
        i = i + 1;
    }
    assert(checks@.subrange(0, checks@.len() as int) =~= checks@);
    if errors.is_empty() {
        None
    } else {
        Some(errors)
    }
}

impl NICView {
    /// What the checks of this interface find, with the host's networks as
    /// given.
    pub open spec fn checks(self, networks: Map<Seq<char>, Seq<char>>) -> NicChecks {
        NicChecks {
            interface: accepts(interface_pattern(), self.interface),
            ip: accepts(ip_pattern(), self.ip),
            netmask: accepts(ip_pattern(), self.netmask),
            gateway: accepts(ip_pattern(), self.gateway),
            mac: accepts(mac_pattern(), self.mac),
            nic_tag: networks.contains_key(self.nic_tag),
        }
    }
}

impl JailConfigView {
    /// What the checks of the interfaces find.
    pub open spec fn nic_checks(self, networks: Map<Seq<char>, Seq<char>>) -> Seq<NicChecks> {
        Seq::new(self.nics.len(), |i: int| self.nics[i].checks(networks))
    }

    /// The errors of this configuration, with the host's networks as given.
    pub open spec fn errors(self, networks: Map<Seq<char>, Seq<char>>) -> Seq<
        ValidationErrorView,
    > {
        errors_from_checks(
            accepts(name_pattern(), self.hostname),
            accepts(name_pattern(), self.alias),
            self.nic_checks(networks),
        )
    }

    /// The configuration with the values that an input may leave out set:
    /// the shared and the locked memory default to the physical memory.
    pub open spec fn defaulted(self) -> JailConfigView {
        JailConfigView {
            max_shm_memory: Some(memory_or(self.max_shm_memory, self.max_physical_memory)),
            max_locked_memory: Some(memory_or(self.max_locked_memory, self.max_physical_memory)),
            ..self
        }
    }
}

impl NIC {
    /// Checks every field of the interface.
    pub fn checks(&self, config: &Config) -> (r: NicChecks)
        ensures
            r == self@.checks(config@.networks),
    {
        let ip_re = "^(([0-9]|[1-9][0-9]|1[0-9]{2}|2[0-4][0-9]|25[0-5])\\.){3}([0-9]|[1-9][0-9]|1[0-9]{2}|2[0-4][0-9]|25[0-5])$";
        NicChecks {
            interface: accepted("^[a-zA-Z]{1,4}[0-9]{0,3}$", self.interface.as_str()),
            ip: accepted(ip_re, self.ip.as_str()),
            netmask: accepted(ip_re, self.netmask.as_str()),
            gateway: accepted(ip_re, self.gateway.as_str()),
            mac: accepted("^[a-fA-F0-9]{1,2}([:][a-fA-F0-9]{1,2}){5}$", self.mac.as_str()),
            nic_tag: config.settings.networks.contains_key(self.nic_tag.as_str()),
        }
    }
}

impl JailConfig {
    /// Checks the configuration: `None` where it is in order, else every
    /// error found, in the order host name, alias, interfaces.
    pub fn errors(&self, config: &Config) -> (r: Option<Vec<ValidationError>>)
        ensures
            match r {
                Some(errors) => errors@.len() > 0 && validation_views(errors@) == self@.errors(
                    config@.networks,
                ),
                None => self@.errors(config@.networks).len() == 0,
            },
    {
        let name_re = "^[a-zA-Z0-9]([a-zA-Z0-9-]{0,253}[a-zA-Z0-9])?$";
        let hostname_ok = accepted(name_re, self.hostname.as_str());
        let alias_ok = accepted(name_re, self.alias.as_str());
        let mut checks: Vec<NicChecks> = Vec::new();
        let mut i: usize = 0;
        while i < self.nics.len()
            invariant
                i <= self.nics@.len(),
                checks@.len() == i,
                forall|j: int|
                    0 <= j < i ==> checks@[j] == (#[trigger] self.nics@[j])@.checks(
                        config@.networks,
                    ),
            decreases self.nics@.len() - i,
        {
            checks.push(self.nics[i].checks(config));
            i = i + 1;
        }
        assert(checks@ =~= self@.nic_checks(config@.networks));
        errors_from(hostname_ok, alias_ok, &checks)
    }

    /// Completes a configuration that was read from an input and checks it:
    /// the shared and the locked memory default to the physical memory, and
    /// a configuration with errors is refused with all of them.
    pub fn from_parsed(config: &Config, conf: JailConfig) -> (r: Result<
        JailConfig,
        ValidationErrors,
    >)
        ensures
            match r {
                Ok(c) => c@ == conf@.defaulted() && c@.errors(config@.networks).len() == 0,
                Err(e) => e@.len() > 0 && e@ == conf@.defaulted().errors(config@.networks),
            },
    {
        let mut conf = conf;
        let physical = conf.max_physical_memory;
        if conf.max_shm_memory.is_none() {
            conf.max_shm_memory = Some(physical);
        }
        if conf.max_locked_memory.is_none() {
            conf.max_locked_memory = Some(physical);
        }
        match conf.errors(config) {
            Some(errors) => Err(ValidationErrors::new(errors)),
            None => Ok(conf),
        }
    }
}

/// Whether every check of an interface passed.
pub open spec fn all_passed(c: NicChecks) -> bool {
    c.interface && c.ip && c.netmask && c.gateway && c.mac && c.nic_tag
}

/// Where no check of any interface failed, every check of every interface
/// passed.
proof fn lemma_no_failures(checks: Seq<NicChecks>)
    requires
        nics_failures(checks) == 0,
    ensures
        forall|i: int| 0 <= i < checks.len() ==> all_passed(#[trigger] checks[i]),
    decreases checks.len(),
{
    if checks.len() > 0 {
        lemma_no_failures(checks.drop_last());
        assert forall|i: int| 0 <= i < checks.len() implies all_passed(#[trigger] checks[i]) by {
            if i < checks.len() - 1 {
                assert(checks[i] == checks.drop_last()[i]);
            } else {
                assert(checks[i] == checks.last());
            }
        }
    }
}

/// A configuration without errors has a host name and an alias that are
/// accepted, and each of its interfaces has fields that are accepted and a
/// network tag that the host has a bridge for.
pub proof fn lemma_valid_config(c: JailConfigView, networks: Map<Seq<char>, Seq<char>>)
    requires
        c.errors(networks).len() == 0,
    ensures
        accepts(name_pattern(), c.hostname),
        accepts(name_pattern(), c.alias),
        forall|i: int|
            0 <= i < c.nics.len() ==> all_passed((#[trigger] c.nics[i]).checks(networks))
                && networks.contains_key(c.nics[i].nic_tag),
{
    let checks = c.nic_checks(networks);
    lemma_error_count(
        accepts(name_pattern(), c.hostname),
        accepts(name_pattern(), c.alias),
        checks,
    );
    lemma_no_failures(checks);
    assert forall|i: int| 0 <= i < c.nics.len() implies all_passed(
        (#[trigger] c.nics[i]).checks(networks),
    ) && networks.contains_key(c.nics[i].nic_tag) by {
        assert(checks[i] == c.nics[i].checks(networks));
    }
}

/// Completing a configuration twice gives what completing it once gives.
pub proof fn lemma_defaulted_idempotent(c: JailConfigView)
    ensures
        c.defaulted().defaulted() == c.defaulted(),
{
}

/// An interface of a jail once its pair of virtual interfaces is made.
#[derive(Debug, PartialEq, Eq)]
pub struct IFace {
    /// The name of the interface inside the jail.
    pub iface: String,
    /// The name of the pair: that of either half without its last letter.
    pub epair: String,
    /// The commands that set the interface up inside the jail.
    pub start_script: String,
}

/// An interface once its pair is made, as plain values.
pub struct IFaceView {
    pub iface: Seq<char>,
    pub epair: Seq<char>,
    pub start_script: Seq<char>,
}

impl View for IFace {
    type V = IFaceView;

    open spec fn view(&self) -> IFaceView {
        IFaceView { iface: self.iface@, epair: self.epair@, start_script: self.start_script@ }
    }
}

impl Clone for IFace {
    fn clone(&self) -> (r: IFace)
        ensures
            r@ == self@,
    {
        IFace {
            iface: self.iface.clone(),
            epair: self.epair.clone(),
            start_script: self.start_script.clone(),
        }
    }
}

/// The views of a list of interfaces.
pub open spec fn iface_views(ifs: Seq<IFace>) -> Seq<IFaceView> {
    Seq::new(ifs.len(), |i: int| ifs[i]@)
}

/// What follows the name of the pair where the device of a VLAN is made.
pub open spec fn vlan_create(vlan: u16) -> Seq<char> {
    "b."@ + decimal(vlan as nat) + " create vlan "@ + decimal(vlan as nat) + " vlandev "@
}

/// What follows the name of the pair where the device of a VLAN is named.
pub open spec fn vlan_name(vlan: u16) -> Seq<char> {
    "b."@ + decimal(vlan as nat) + " name "@
}

/// The name of the pair, given the name of one half: the name without its
/// last letter.
pub open spec fn pair_name(half: Seq<char>) -> Seq<char> {
    if half.len() == 0 {
        half
    } else {
        half.drop_last()
    }
}

impl NICView {
    /// The command that sets the default route, for the primary interface.
    pub open spec fn route_script(self) -> Seq<char> {
        if self.primary {
            "/sbin/route add default -gateway "@ + self.gateway + "; "@
        } else {
            ""@
        }
    }

    /// What the start-up script says after the last name of the pair: the
    /// name of the interface, the command that gives it its address, and
    /// the default route.
    pub open spec fn script_tail(self) -> Seq<char> {
        self.interface + "; /sbin/ifconfig "@ + self.interface + " inet "@ + self.ip + " "@
            + self.netmask + "; "@ + self.route_script()
    }

    /// The commands that name the jail's half of the pair, up to the name
    /// that it is given. On a VLAN a device for the VLAN is made on the
    /// jail's half first, and that device is named.
    pub open spec fn script_head(self, epair: Seq<char>) -> Seq<char> {
        match self.vlan {
            Some(vlan) => "/sbin/ifconfig "@ + epair + vlan_create(vlan) + epair
                + "p; /sbin/ifconfig "@ + epair + vlan_name(vlan),
            None => "/sbin/ifconfig "@ + epair + "b name "@,
        }
    }

    /// The commands that set the interface up inside the jail: its name,
    /// its address, and for the primary interface the default route through
    /// its gateway.
    pub open spec fn start_script(self, epair: Seq<char>) -> Seq<char> {
        self.script_head(epair) + self.script_tail()
    }

    /// The texts of the start-up script between which the name of the pair
    /// stands. They depend on the interface alone.
    pub open spec fn script_pieces(self) -> Seq<Seq<char>> {
        match self.vlan {
            Some(vlan) => seq![
                "/sbin/ifconfig "@,
                vlan_create(vlan),
                "p; /sbin/ifconfig "@,
                vlan_name(vlan) + self.script_tail(),
            ],
            None => seq!["/sbin/ifconfig "@, "b name "@ + self.script_tail()],
        }
    }

    /// The interface once its pair is made.
    pub open spec fn iface(self, epair: Seq<char>) -> IFaceView {
        IFaceView { iface: self.interface, epair, start_script: self.start_script(epair) }
    }
}

/// What is left to do on the host for an interface whose pair is made.
#[derive(Debug)]
pub struct IfaceSetup {
    /// The interface.
    pub iface: IFace,
    /// The call that attaches the host's half of the pair to the bridge.
    /// Its failure ends the work.
    pub attach: Step,
    /// The call that names the jail in the description of the host's half.
    /// Its failure ends the work.
    pub describe: Step,
}

/// The call that makes a pair of virtual interfaces; it prints the name of
/// the host's half. Its failure ends the work.
pub fn epair_create() -> (r: Step)
    ensures
        r@ == fatal(
            call("/sbin/ifconfig"@, seq!["epair"@, "create"@, "up"@]),
            "could not create interface"@,
        ),
{
    Step::fatal(
        Command::new("/sbin/ifconfig", args3("epair", "create", "up")),
        "could not create interface",
    )
}

/// The description of the host's half of a pair of the jail `uuid`.
pub open spec fn vnic_description(uuid: Seq<u8>) -> Seq<char> {
    "VNic from jail "@ + hyphenated_spec(uuid)
}

impl NIC {
    /// What the start-up script says after the last name of the pair.
    fn script_tail(&self) -> (r: String)
        ensures
            r@ == self@.script_tail(),
    {
        let mut s = self.interface.clone();
        s.append("; /sbin/ifconfig ");
        s.append(self.interface.as_str());
        s.append(" inet ");
        s.append(self.ip.as_str());
        s.append(" ");
        s.append(self.netmask.as_str());
        s.append("; ");
        let route = if self.primary {
            let mut r = String::from_str("/sbin/route add default -gateway ");
            r.append(self.gateway.as_str());
            r.append("; ");
            r
        } else {
            String::from_str("")
        };
        s.append(route.as_str());
        s
    }

    /// The start-up script of the interface for the pair `epair`.
    pub fn start_script(&self, epair: &str) -> (r: String)
        ensures
            r@ == self@.start_script(epair@),
    {
        let mut s = String::from_str("/sbin/ifconfig ");
        s.append(epair);
        match self.vlan {
            Some(vlan) => {
                let v = u64_to_string(vlan as u64);
                let mut create = String::from_str("b.");
                create.append(v.as_str());
                create.append(" create vlan ");
                create.append(v.as_str());
                create.append(" vlandev ");
                let mut name = String::from_str("b.");
                name.append(v.as_str());
                name.append(" name ");
                s.append(create.as_str());
                s.append(epair);
                s.append("p; /sbin/ifconfig ");
                s.append(epair);
                s.append(name.as_str());
            },
            None => {
                s.append("b name ");
            },
        }
        let tail = self.script_tail();
        s.append(tail.as_str());
        s
    }

    /// Plans the interface of the jail `uuid`, given what the call that
    /// made the pair printed: the name of the host's half.
    ///
    /// Fails with "bridge not configured" exactly where the host has no
    /// bridge for the network tag of the interface.
    pub fn get_iface(&self, config: &Config, uuid: &Uuid, reply: &str) -> (r: Result<
        IfaceSetup,
        Error,
    >)
        ensures
            match r {
                Ok(setup) => {
                    let half = trim_spec(reply@);
                    &&& config@.networks.contains_key(self@.nic_tag)
                    &&& setup.iface@ == self@.iface(pair_name(half))
                    &&& setup.attach@ == fatal(
                        call(
                            "/sbin/ifconfig"@,
                            seq![config@.networks[self@.nic_tag], "addm"@, half],
                        ),
                        "could not add epair to bridge"@,
                    )
                    &&& setup.describe@ == fatal(
                        call(
                            "/sbin/ifconfig"@,
                            seq![half, "description"@, vnic_description(uuid@)],
                        ),
                        "could not set description"@,
                    )
                },
                Err(e) => !config@.networks.contains_key(self@.nic_tag) && e@
                    == ErrorView::Generic("bridge not configured"@),
            },
    {
        let half = trim(reply);
        let n = half.as_str().unicode_len();
        let epair = if n == 0 {
            half.clone()
        } else {
            String::from_str(half.as_str().substring_char(0, n - 1))
        };
        assert(epair@ =~= pair_name(half@));
        match config.settings.networks.get(self.nic_tag.as_str()) {
            None => Err(Error::Generic(GenericError::new("bridge not configured"))),
            Some(bridge) => {
                let attach = Step::fatal(
                    Command::new("/sbin/ifconfig", args3(bridge.as_str(), "addm", half.as_str())),
                    "could not add epair to bridge",
                );
                let script = self.start_script(epair.as_str());
                let mut desc = String::from_str("VNic from jail ");
                let id = uuid.hyphenated();
                desc.append(id.as_str());
                let describe = Step::fatal(
                    Command::new(
                        "/sbin/ifconfig",
                        args3(half.as_str(), "description", desc.as_str()),
                    ),
                    "could not set description",
                );
                Ok(
                    IfaceSetup {
                        iface: IFace {
                            iface: self.interface.clone(),
                            epair,
                            start_script: script,
                        },
                        attach,
                        describe,
                    },
                )
            },
        }
    }
}

/// Joining in the last of some texts, itself made of two parts, is
/// joining in its first part and then adding the second.
proof fn lemma_join_last(parts: Seq<Seq<char>>, sep: Seq<char>, a: Seq<char>, b: Seq<char>)
    requires
        parts.len() >= 1,
    ensures
        join_spec(parts.push(a + b), sep) == join_spec(parts.push(a), sep) + b,
{
    assert(parts.push(a + b).drop_last() =~= parts);
    assert(parts.push(a).drop_last() =~= parts);
    assert(join_spec(parts, sep) + sep + (a + b) =~= join_spec(parts, sep) + sep + a + b);
}

/// The start-up script of an interface is the same for every pair but for
/// the name of the pair: it is made of texts that depend on the interface
/// alone, with the name of the pair between each two of them.
pub proof fn lemma_script_modulo_epair(nic: NICView, epair: Seq<char>)
    ensures
        nic.start_script(epair) == join_spec(nic.script_pieces(), epair),
{
    let tail = nic.script_tail();
    let first = seq!["/sbin/ifconfig "@];
    assert(join_spec(first, epair) == "/sbin/ifconfig "@);
    match nic.vlan {
        Some(vlan) => {
            let two = first.push(vlan_create(vlan));
            let three = two.push("p; /sbin/ifconfig "@);
            assert(two.drop_last() =~= first);
            assert(three.drop_last() =~= two);
            let four = three.push(vlan_name(vlan));
            assert(four.drop_last() =~= three);
            assert(join_spec(two, epair) == "/sbin/ifconfig "@ + epair + vlan_create(vlan));
            assert(join_spec(three, epair) == join_spec(two, epair) + epair
                + "p; /sbin/ifconfig "@);
            assert(join_spec(four, epair) == join_spec(three, epair) + epair + vlan_name(vlan));
            assert(join_spec(four, epair) == nic.script_head(epair));
            lemma_join_last(three, epair, vlan_name(vlan), tail);
            assert(nic.script_pieces() =~= three.push(vlan_name(vlan) + tail));
        },
        None => {
            assert(first.push("b name "@).drop_last() =~= first);
            lemma_join_last(first, epair, "b name "@, tail);
            assert(nic.script_pieces() =~= first.push("b name "@ + tail));
        },
    }
}

} // verus!
