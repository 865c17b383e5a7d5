//! Services offered to accounts, the services manager's registry of them, and
//! the messages an account accepts from a service.
use vstd::prelude::*;
use crate::chain::{Coin, Timestamp};

verus! {

/// Errors of the services package.
#[derive(Clone, Debug, PartialEq, Eq)]
pub enum ValenceError {
    /// A decimal could not be parsed.
    InvalidDecimal,
    DecimalRangeExceeded,
    UnauthorizedService,
    NotAdmin,
    NotServicesManager,
    InvalidService(String),
    MissingRegisterData(String),
    DataParseError { service: String, ty: String },
    /// A service's registration or update data could not be read.
    RegisterDataParseError(String),
    PIDErrorOver,
    PIDErrorNegetive,
    InvalidMaxLimitRange,
    NoAdminChangeData,
    NotNewAdmin,
    AdminChangeExpired,
    MustPayRegistrationFee(String, String),
}

/// An update of an optional stored field: set it, or clear it.
#[derive(Clone, Debug, PartialEq, Eq)]
pub enum OptionalField<T> {
    Assign(T),
    Clear,
}

/// Applies an optional update to a stored optional field: `None` keeps it.
pub fn apply_optional<T>(current: Option<T>, update: Option<OptionalField<T>>) -> (r: Option<T>)
    ensures
        update is None ==> r == current,
        update matches Some(OptionalField::Assign(v)) ==> r == Some(v),
        update matches Some(OptionalField::Clear) ==> r is None,
{
    match update {
        None => current,
        Some(OptionalField::Assign(v)) => Some(v),
        Some(OptionalField::Clear) => None,
    }
}

/// The services accounts can register to.
#[derive(Clone, Copy, Debug, PartialEq, Eq, Structural)]
pub enum ValenceServices {
    Rebalancer,
}

/// The name of a service.
pub open spec fn service_name(s: ValenceServices) -> Seq<char> {
    match s {
        ValenceServices::Rebalancer => "rebalancer"@,
    }
}

impl ValenceServices {
    /// The service of a name; an unknown name is refused.
    pub fn from_str(s: &str) -> (r: Result<ValenceServices, ValenceError>)
        ensures
            s@ == "rebalancer"@ ==> r == Ok::<ValenceServices, ValenceError>(
                ValenceServices::Rebalancer,
            ),
            s@ != "rebalancer"@ ==> (r matches Err(ValenceError::InvalidService(name)) && name@ == s@),
    {
        let given = s.to_string();
        let known = "rebalancer".to_string();
        if given == known {
            Ok(ValenceServices::Rebalancer)
        } else {
            Err(ValenceError::InvalidService(given))
        }
    }

    /// The name of the service.
    pub fn to_string(&self) -> (r: String)
        ensures
            r@ == service_name(*self),
    {
        match self {
            ValenceServices::Rebalancer => "rebalancer".to_string(),
        }
    }

    /// The data a service needs at registration; the rebalancer needs some.
    pub fn require_register_data<T>(&self, data: Option<T>) -> (r: Result<T, ValenceError>)
        ensures
            data matches Some(d) ==> r == Ok::<T, ValenceError>(d),
            data is None ==> (r matches Err(ValenceError::MissingRegisterData(name)) && name@
                == service_name(*self)),
    {
        match data {
            Some(d) => Ok(d),
            None => Err(ValenceError::MissingRegisterData(self.to_string())),
        }
    }
}

/// The start of the cycle `time` falls in: `time` minus the seconds since the
/// last multiple of `cycle` seconds.
pub fn start_of_cycle(time: Timestamp, cycle: u64) -> (r: Timestamp)
    requires
        cycle > 0,
    ensures
        r.nanos == time.nanos - (time.spec_seconds() % cycle as int) * 1_000_000_000,
        r.spec_seconds() == time.spec_seconds() - time.spec_seconds() % cycle as int,
        r.spec_seconds() % cycle as int == 0,
{
    let secs = time.seconds();
    let leftover = secs % cycle;
    proof {
        let n = time.nanos as int;
        let s = secs as int;
        crate::decimal::lemma_floor_le(n, 1_000_000_000);
        vstd::arithmetic::div_mod::lemma_fundamental_div_mod(s, cycle as int);
        vstd::arithmetic::div_mod::lemma_div_pos_is_pos(s, cycle as int);
        assert(cycle * (s / cycle as int) >= 0) by (nonlinear_arith)
            requires
                cycle > 0,
                s / cycle as int >= 0,
        ;
        assert(leftover <= secs);
        assert(leftover as int * 1_000_000_000 <= s * 1_000_000_000) by (nonlinear_arith)
            requires
                leftover <= s,
        ;
        vstd::arithmetic::div_mod::lemma_fundamental_div_mod(n, 1_000_000_000);
        vstd::arithmetic::div_mod::lemma_fundamental_div_mod(s, cycle as int);
        vstd::arithmetic::div_mod::lemma_mod_bound(n, 1_000_000_000);
        let m = s - leftover as int;
        assert(m % cycle as int == 0) by {
            vstd::arithmetic::div_mod::lemma_mod_multiples_basic(s / cycle as int, cycle as int);
            assert(m == (s / cycle as int) * cycle as int) by (nonlinear_arith)
                requires
                    s == cycle * (s / cycle as int) + s % cycle as int,
                    leftover == s % cycle as int,
                    m == s - leftover,
            ;
        }
        assert((n - leftover * 1_000_000_000) / 1_000_000_000 == m) by {
            assert(n - leftover * 1_000_000_000 == m * 1_000_000_000 + n % 1_000_000_000)
                by (nonlinear_arith)
                requires
                    n == 1_000_000_000 * (n / 1_000_000_000) + n % 1_000_000_000,
                    s == n / 1_000_000_000,
                    m == s - leftover,
            ;
            vstd::arithmetic::div_mod::lemma_div_multiples_vanish_fancy(
                m,
                n % 1_000_000_000,
                1_000_000_000,
            );
            assert(1_000_000_000 * m == m * 1_000_000_000) by (nonlinear_arith);
        }
    }
    time.minus_seconds(leftover)
}

/// A service registered with the manager: its name and address.
#[derive(Clone, Debug, PartialEq, Eq)]
pub struct ServiceEntry {
    pub name: String,
    pub addr: String,
}

/// Why a registry change was refused.
#[derive(Clone, Debug, PartialEq, Eq)]
pub enum RegistryError {
    ServiceAlreadyExists(String),
    ServiceDoesntExistYet(String),
    ServiceAddressAlreadyExists(String),
    ServiceDoesntExist(String),
    CodeIdNotInWhitelist(u64),
}

/// The services manager's two maps: service name to address, and address to
/// service name.
#[derive(Clone, Debug, PartialEq, Eq)]
pub struct ServiceRegistry {
    pub by_name: Vec<ServiceEntry>,
    pub by_addr: Vec<ServiceEntry>,
}

/// The address of the service named `name`, if any.
pub open spec fn lookup_name(entries: Seq<ServiceEntry>, name: Seq<char>) -> Option<Seq<char>> {
    if exists|i: int| 0 <= i < entries.len() && #[trigger] entries[i].name@ == name {
        Some(entries[choose|i: int| 0 <= i < entries.len() && #[trigger] entries[i].name@ == name].addr@)
    } else {
        None
    }
}

/// The service at address `addr`, if any.
pub open spec fn lookup_addr(entries: Seq<ServiceEntry>, addr: Seq<char>) -> Option<Seq<char>> {
    if exists|i: int| 0 <= i < entries.len() && #[trigger] entries[i].addr@ == addr {
        Some(entries[choose|i: int| 0 <= i < entries.len() && #[trigger] entries[i].addr@ == addr].name@)
    } else {
        None
    }
}

/// Each name occurs once.
pub open spec fn names_unique(entries: Seq<ServiceEntry>) -> bool {
    forall|i: int, j: int|
        0 <= i < j < entries.len() ==> #[trigger] entries[i].name@ != #[trigger] entries[j].name@
}

/// Each address occurs once.
pub open spec fn addrs_unique(entries: Seq<ServiceEntry>) -> bool {
    forall|i: int, j: int|
        0 <= i < j < entries.len() ==> #[trigger] entries[i].addr@ != #[trigger] entries[j].addr@
}

fn find_name(entries: &Vec<ServiceEntry>, name: &String) -> (r: Option<usize>)
    ensures
        r matches Some(i) ==> i < entries.len() && entries@[i as int].name@ == name@,
        r is None ==> forall|i: int| 0 <= i < entries.len() ==> #[trigger] entries@[i].name@ != name@,
{
    let mut i: usize = 0;
    while i < entries.len()
        invariant
            0 <= i <= entries.len(),
            forall|k: int| 0 <= k < i ==> #[trigger] entries@[k].name@ != name@,
        decreases entries.len() - i,
    {
        if entries[i].name == *name {
            return Some(i);
        }
        i = i + 1;
    }
    None
}

fn find_addr(entries: &Vec<ServiceEntry>, addr: &String) -> (r: Option<usize>)
    ensures
        r matches Some(i) ==> i < entries.len() && entries@[i as int].addr@ == addr@,
        r is None ==> forall|i: int| 0 <= i < entries.len() ==> #[trigger] entries@[i].addr@ != addr@,
{
    let mut i: usize = 0;
    while i < entries.len()
        invariant
            0 <= i <= entries.len(),
            forall|k: int| 0 <= k < i ==> #[trigger] entries@[k].addr@ != addr@,
        decreases entries.len() - i,
    {
        if entries[i].addr == *addr {
            return Some(i);
        }
        i = i + 1;
    }
    None
}

proof fn lemma_lookup_name_found(entries: Seq<ServiceEntry>, k: int)
    requires
        0 <= k < entries.len(),
        names_unique(entries),
    ensures
        lookup_name(entries, entries[k].name@) == Some(entries[k].addr@),
{
    let n = entries[k].name@;
    assert(entries[k].name@ == n);
    let c = choose|i: int| 0 <= i < entries.len() && #[trigger] entries[i].name@ == n;
    if c != k {
        if c < k {
            assert(entries[c].name@ != entries[k].name@);
        } else {
            assert(entries[k].name@ != entries[c].name@);
        }
    }
}

proof fn lemma_lookup_addr_found(entries: Seq<ServiceEntry>, k: int)
    requires
        0 <= k < entries.len(),
        addrs_unique(entries),
    ensures
        lookup_addr(entries, entries[k].addr@) == Some(entries[k].name@),
{
    let a = entries[k].addr@;
    assert(entries[k].addr@ == a);
    let c = choose|i: int| 0 <= i < entries.len() && #[trigger] entries[i].addr@ == a;
    if c != k {
        if c < k {
            assert(entries[c].addr@ != entries[k].addr@);
        } else {
            assert(entries[k].addr@ != entries[c].addr@);
        }
    }
}


/// Sets `name`'s address, replacing an existing entry of that name.
fn put_by_name(entries: &mut Vec<ServiceEntry>, name: String, addr: String)
    requires
        names_unique(old(entries)@),
    ensures
        names_unique(final(entries)@),
        lookup_name(final(entries)@, name@) == Some(addr@),
        forall|n: Seq<char>|
            n != name@ ==> lookup_name(final(entries)@, n) == lookup_name(old(entries)@, n),
{
    let ghost pre = entries@;
    let ghost nm = name@;
    match find_name(entries, &name) {
        Some(k) => {
            entries.set(k, ServiceEntry { name, addr });
            proof {
                let post = entries@;
                assert(names_unique(post)) by {
                    assert forall|i: int, j: int| 0 <= i < j < post.len() implies #[trigger] post[i].name@
                        != #[trigger] post[j].name@ by {
                        assert(pre[i].name@ != pre[j].name@);
                    }
                }
                lemma_lookup_name_found(post, k as int);
                assert forall|n: Seq<char>| n != nm implies lookup_name(post, n) == lookup_name(
                    pre,
                    n,
                ) by {
                    if exists|i: int| 0 <= i < pre.len() && #[trigger] pre[i].name@ == n {
                        let c = choose|i: int| 0 <= i < pre.len() && #[trigger] pre[i].name@ == n;
                        lemma_lookup_name_found(pre, c);
                        assert(c != k);
                        assert(post[c] == pre[c]);
                        lemma_lookup_name_found(post, c);
                    } else {
                        assert forall|i: int| 0 <= i < post.len() implies #[trigger] post[i].name@
                            != n by {
                            if i != k {
                                assert(post[i] == pre[i]);
                            }
                        }
                    }
                }
            }
        },
        None => {
            entries.push(ServiceEntry { name, addr });
            proof {
                let post = entries@;
                assert(names_unique(post)) by {
                    assert forall|i: int, j: int| 0 <= i < j < post.len() implies #[trigger] post[i].name@
                        != #[trigger] post[j].name@ by {
                        if j < pre.len() {
                            assert(pre[i].name@ != pre[j].name@);
                        } else {
                            assert(post[i] == pre[i]);
                        }
                    }
                }
                lemma_lookup_name_found(post, pre.len() as int);
                assert forall|n: Seq<char>| n != nm implies lookup_name(post, n) == lookup_name(
                    pre,
                    n,
                ) by {
                    if exists|i: int| 0 <= i < pre.len() && #[trigger] pre[i].name@ == n {
                        let c = choose|i: int| 0 <= i < pre.len() && #[trigger] pre[i].name@ == n;
                        lemma_lookup_name_found(pre, c);
                        assert(post[c] == pre[c]);
                        lemma_lookup_name_found(post, c);
                    } else {
                        assert forall|i: int| 0 <= i < post.len() implies #[trigger] post[i].name@
                            != n by {
                            if i < pre.len() {
                                assert(post[i] == pre[i]);
                            }
                        }
                    }
                }
            }
        },
    }
}

/// Sets the service at `addr`, replacing an existing entry of that address.
fn put_by_addr(entries: &mut Vec<ServiceEntry>, name: String, addr: String)
    requires
        addrs_unique(old(entries)@),
    ensures
        addrs_unique(final(entries)@),
        lookup_addr(final(entries)@, addr@) == Some(name@),
        forall|a: Seq<char>|
            a != addr@ ==> lookup_addr(final(entries)@, a) == lookup_addr(old(entries)@, a),
{
    let ghost pre = entries@;
    let ghost ad = addr@;
    match find_addr(entries, &addr) {
        Some(k) => {
            entries.set(k, ServiceEntry { name, addr });
            proof {
                let post = entries@;
                assert(addrs_unique(post)) by {
                    assert forall|i: int, j: int| 0 <= i < j < post.len() implies #[trigger] post[i].addr@
                        != #[trigger] post[j].addr@ by {
                        assert(pre[i].addr@ != pre[j].addr@);
                    }
                }
                lemma_lookup_addr_found(post, k as int);
                assert forall|a: Seq<char>| a != ad implies lookup_addr(post, a) == lookup_addr(
                    pre,
                    a,
                ) by {
                    if exists|i: int| 0 <= i < pre.len() && #[trigger] pre[i].addr@ == a {
                        let c = choose|i: int| 0 <= i < pre.len() && #[trigger] pre[i].addr@ == a;
                        lemma_lookup_addr_found(pre, c);
                        assert(c != k);
                        assert(post[c] == pre[c]);
                        lemma_lookup_addr_found(post, c);
                    } else {
                        assert forall|i: int| 0 <= i < post.len() implies #[trigger] post[i].addr@
                            != a by {
                            if i != k {
                                assert(post[i] == pre[i]);
                            }
                        }
                    }
                }
            }
        },
        None => {
            entries.push(ServiceEntry { name, addr });
            proof {
                let post = entries@;
                assert(addrs_unique(post)) by {
                    assert forall|i: int, j: int| 0 <= i < j < post.len() implies #[trigger] post[i].addr@
                        != #[trigger] post[j].addr@ by {
                        if j < pre.len() {
                            assert(pre[i].addr@ != pre[j].addr@);
                        } else {
                            assert(post[i] == pre[i]);
                        }
                    }
                }
                lemma_lookup_addr_found(post, pre.len() as int);
                assert forall|a: Seq<char>| a != ad implies lookup_addr(post, a) == lookup_addr(
                    pre,
                    a,
                ) by {
                    if exists|i: int| 0 <= i < pre.len() && #[trigger] pre[i].addr@ == a {
                        let c = choose|i: int| 0 <= i < pre.len() && #[trigger] pre[i].addr@ == a;
                        lemma_lookup_addr_found(pre, c);
                        assert(post[c] == pre[c]);
                        lemma_lookup_addr_found(post, c);
                    } else {
                        assert forall|i: int| 0 <= i < post.len() implies #[trigger] post[i].addr@
                            != a by {
                            if i < pre.len() {
                                assert(post[i] == pre[i]);
                            }
                        }
                    }
                }
            }
        },
    }
}

/// Removes the entry named `name`, if any.
fn remove_by_name(entries: &mut Vec<ServiceEntry>, name: &String)
    requires
        names_unique(old(entries)@),
    ensures
        names_unique(final(entries)@),
        lookup_name(final(entries)@, name@) is None,
        forall|n: Seq<char>|
            n != name@ ==> lookup_name(final(entries)@, n) == lookup_name(old(entries)@, n),
{
    let ghost pre = entries@;
    match find_name(entries, name) {
        Some(k) => {
            entries.remove(k);
            proof {
                let post = entries@;
                assert forall|i: int| 0 <= i < post.len() implies post[i] == pre[if i < k {
                    i
                } else {
                    i + 1
                }] by {}
                assert(names_unique(post)) by {
                    assert forall|i: int, j: int| 0 <= i < j < post.len() implies #[trigger] post[i].name@
                        != #[trigger] post[j].name@ by {
                        let ii = if i < k { i } else { i + 1 };
                        let jj = if j < k { j } else { j + 1 };
                        assert(pre[ii].name@ != pre[jj].name@);
                    }
                }
                assert forall|i: int| 0 <= i < post.len() implies #[trigger] post[i].name@ != name@ by {
                    let ii = if i < k { i } else { i + 1 };
                    if ii < k {
                        assert(pre[ii].name@ != pre[k as int].name@);
                    } else {
                        assert(pre[k as int].name@ != pre[ii].name@);
                    }
                }
                assert forall|n: Seq<char>| n != name@ implies lookup_name(post, n) == lookup_name(
                    pre,
                    n,
                ) by {
                    if exists|i: int| 0 <= i < pre.len() && #[trigger] pre[i].name@ == n {
                        let c = choose|i: int| 0 <= i < pre.len() && #[trigger] pre[i].name@ == n;
                        lemma_lookup_name_found(pre, c);
                        let cc = if c < k { c } else { c - 1 };
                        assert(post[cc] == pre[c]);
                        lemma_lookup_name_found(post, cc);
                    } else {
                        assert forall|i: int| 0 <= i < post.len() implies #[trigger] post[i].name@
                            != n by {
                            let ii = if i < k { i } else { i + 1 };
                            assert(post[i] == pre[ii]);
                        }
                    }
                }
            }
        },
        None => {},
    }
}

/// Removes the entry at `addr`, if any.
fn remove_by_addr(entries: &mut Vec<ServiceEntry>, addr: &String)
    requires
        addrs_unique(old(entries)@),
    ensures
        addrs_unique(final(entries)@),
        lookup_addr(final(entries)@, addr@) is None,
        forall|a: Seq<char>|
            a != addr@ ==> lookup_addr(final(entries)@, a) == lookup_addr(old(entries)@, a),
{
    let ghost pre = entries@;
    match find_addr(entries, addr) {
        Some(k) => {
            entries.remove(k);
            proof {
                let post = entries@;
                assert forall|i: int| 0 <= i < post.len() implies post[i] == pre[if i < k {
                    i
                } else {
                    i + 1
                }] by {}
                assert(addrs_unique(post)) by {
                    assert forall|i: int, j: int| 0 <= i < j < post.len() implies #[trigger] post[i].addr@
                        != #[trigger] post[j].addr@ by {
                        let ii = if i < k { i } else { i + 1 };
                        let jj = if j < k { j } else { j + 1 };
                        assert(pre[ii].addr@ != pre[jj].addr@);
                    }
                }
                assert forall|i: int| 0 <= i < post.len() implies #[trigger] post[i].addr@ != addr@ by {
                    let ii = if i < k { i } else { i + 1 };
                    if ii < k {
                        assert(pre[ii].addr@ != pre[k as int].addr@);
                    } else {
                        assert(pre[k as int].addr@ != pre[ii].addr@);
                    }
                }
                assert forall|a: Seq<char>| a != addr@ implies lookup_addr(post, a) == lookup_addr(
                    pre,
                    a,
                ) by {
                    if exists|i: int| 0 <= i < pre.len() && #[trigger] pre[i].addr@ == a {
                        let c = choose|i: int| 0 <= i < pre.len() && #[trigger] pre[i].addr@ == a;
                        lemma_lookup_addr_found(pre, c);
                        let cc = if c < k { c } else { c - 1 };
                        assert(post[cc] == pre[c]);
                        lemma_lookup_addr_found(post, cc);
                    } else {
                        assert forall|i: int| 0 <= i < post.len() implies #[trigger] post[i].addr@
                            != a by {
                            let ii = if i < k { i } else { i + 1 };
                            assert(post[i] == pre[ii]);
                        }
                    }
                }
            }
        },
        None => {},
    }
}

impl ServiceRegistry {
    /// The registry's well-formedness: each map has one entry per key.
    pub open spec fn wf(self) -> bool {
        names_unique(self.by_name@) && addrs_unique(self.by_addr@)
    }

    pub open spec fn addr_of(self, name: Seq<char>) -> Option<Seq<char>> {
        lookup_name(self.by_name@, name)
    }

    pub open spec fn name_at(self, addr: Seq<char>) -> Option<Seq<char>> {
        lookup_addr(self.by_addr@, addr)
    }

    pub fn new() -> (r: ServiceRegistry)
        ensures
            r.wf(),
            forall|n: Seq<char>| r.addr_of(n) is None,
            forall|a: Seq<char>| r.name_at(a) is None,
    {
        ServiceRegistry { by_name: Vec::new(), by_addr: Vec::new() }
    }

    /// The address of a service; an unknown service is refused.
    pub fn get_service_addr(&self, name: &String) -> (r: Result<String, RegistryError>)
        requires
            self.wf(),
        ensures
            self.addr_of(name@) matches Some(a) ==> (r matches Ok(x) && x@ == a),
            self.addr_of(name@) is None ==> r == Err::<String, RegistryError>(
                RegistryError::ServiceDoesntExist(*name),
            ),
    {
        match find_name(&self.by_name, name) {
            Some(i) => {
                proof {
                    lemma_lookup_name_found(self.by_name@, i as int);
                }
                Ok(self.by_name[i].addr.clone())
            },
            None => {
                Err(RegistryError::ServiceDoesntExist(name.clone()))
            },
        }
    }

    /// Registers a new service; both its name and its address must be new.
    pub fn add_service(&mut self, name: String, addr: String) -> (r: Result<(), RegistryError>)
        requires
            old(self).wf(),
        ensures
            final(self).wf(),
            old(self).addr_of(name@) is Some ==> (r == Err::<(), RegistryError>(
                RegistryError::ServiceAlreadyExists(name),
            ) && *final(self) == *old(self)),
            old(self).addr_of(name@) is None && old(self).name_at(addr@) is Some ==> (r == Err::<
                (),
                RegistryError,
            >(RegistryError::ServiceAddressAlreadyExists(addr)) && *final(self) == *old(self)),
            old(self).addr_of(name@) is None && old(self).name_at(addr@) is None ==> {
                &&& r is Ok
                &&& final(self).addr_of(name@) == Some(addr@)
                &&& final(self).name_at(addr@) == Some(name@)
                &&& forall|n: Seq<char>| n != name@ ==> final(self).addr_of(n) == old(self).addr_of(n)
                &&& forall|a: Seq<char>| a != addr@ ==> final(self).name_at(a) == old(self).name_at(a)
            },
    {
        if let Some(_) = find_name(&self.by_name, &name) {
            return Err(RegistryError::ServiceAlreadyExists(name));
        }
        if let Some(_) = find_addr(&self.by_addr, &addr) {
            return Err(RegistryError::ServiceAddressAlreadyExists(addr));
        }
        proof {
            assert(self.addr_of(name@) is None);
            assert(self.name_at(addr@) is None);
        }
        put_by_name(&mut self.by_name, name.clone(), addr.clone());
        put_by_addr(&mut self.by_addr, name, addr);
        Ok(())
    }

    /// Points an existing service to a new address; the address must be new.
    /// The service's previous address no longer names it.
    pub fn update_service(&mut self, name: String, addr: String) -> (r: Result<(), RegistryError>)
        requires
            old(self).wf(),
        ensures
            final(self).wf(),
            old(self).name_at(addr@) is Some ==> (r == Err::<(), RegistryError>(
                RegistryError::ServiceAddressAlreadyExists(addr),
            ) && *final(self) == *old(self)),
            old(self).name_at(addr@) is None && old(self).addr_of(name@) is None ==> (r == Err::<
                (),
                RegistryError,
            >(RegistryError::ServiceDoesntExistYet(name)) && *final(self) == *old(self)),
            old(self).name_at(addr@) is None ==> (old(self).addr_of(name@) matches Some(prev) ==> {
                &&& r is Ok
                &&& final(self).addr_of(name@) == Some(addr@)
                &&& final(self).name_at(addr@) == Some(name@)
                &&& prev != addr@ ==> final(self).name_at(prev) is None
                &&& forall|n: Seq<char>| n != name@ ==> final(self).addr_of(n) == old(self).addr_of(n)
                &&& forall|a: Seq<char>| a != addr@ && a != prev ==> final(self).name_at(a) == old(
                    self,
                ).name_at(a)
            }),
    {
        if let Some(_) = find_addr(&self.by_addr, &addr) {
            return Err(RegistryError::ServiceAddressAlreadyExists(addr));
        }
        let prev = match self.get_service_addr(&name) {
            Ok(a) => a,
            Err(_) => {
                return Err(RegistryError::ServiceDoesntExistYet(name));
            },
        };
        proof {
            assert(self.name_at(addr@) is None);
        }
        put_by_name(&mut self.by_name, name.clone(), addr.clone());
        remove_by_addr(&mut self.by_addr, &prev);
        put_by_addr(&mut self.by_addr, name, addr);
        Ok(())
    }

    /// Removes a service and its address.
    pub fn remove_service(&mut self, name: &String) -> (r: Result<(), RegistryError>)
        requires
            old(self).wf(),
        ensures
            final(self).wf(),
            old(self).addr_of(name@) is None ==> (r == Err::<(), RegistryError>(
                RegistryError::ServiceDoesntExist(*name),
            ) && *final(self) == *old(self)),
            old(self).addr_of(name@) matches Some(a) ==> {
                &&& r is Ok
                &&& final(self).addr_of(name@) is None
                &&& final(self).name_at(a) is None
                &&& forall|n: Seq<char>| n != name@ ==> final(self).addr_of(n) == old(self).addr_of(n)
                &&& forall|x: Seq<char>| x != a ==> final(self).name_at(x) == old(self).name_at(x)
            },
    {
        let addr = match self.get_service_addr(name) {
            Ok(a) => a,
            Err(e) => {
                return Err(e);
            },
        };
        remove_by_name(&mut self.by_name, name);
        remove_by_addr(&mut self.by_addr, &addr);
        Ok(())
    }

    /// Whether `addr` is a registered service.
    pub fn is_service(&self, addr: &String) -> (r: bool)
        requires
            self.wf(),
        ensures
            r == (self.name_at(addr@) is Some),
    {
        match find_addr(&self.by_addr, addr) {
            Some(i) => {
                proof {
                    lemma_lookup_addr_found(self.by_addr@, i as int);
                }
                true
            },
            None => {
                false
            },
        }
    }
}


/// The first of the first `n` code ids to remove that is neither in the
/// whitelist nor added, or that was removed already.
pub open spec fn first_bad_code_id(whitelist: Seq<u64>, to_add: Seq<u64>, to_remove: Seq<u64>, n: int) -> Option<int>
    decreases n,
{
    if n <= 0 {
        None
    } else {
        match first_bad_code_id(whitelist, to_add, to_remove, n - 1) {
            Some(j) => Some(j),
            None => {
                let c = to_remove[n - 1];
                if !(whitelist.contains(c) || to_add.contains(c)) || to_remove.take(n - 1).contains(c) {
                    Some(n - 1)
                } else {
                    None
                }
            },
        }
    }
}

proof fn lemma_bad_code_id_stays(whitelist: Seq<u64>, to_add: Seq<u64>, to_remove: Seq<u64>, n: int, m: int)
    requires
        0 <= n <= m,
        first_bad_code_id(whitelist, to_add, to_remove, n) is Some,
    ensures
        first_bad_code_id(whitelist, to_add, to_remove, m) == first_bad_code_id(whitelist, to_add, to_remove, n),
    decreases m - n,
{
    if m > n {
        lemma_bad_code_id_stays(whitelist, to_add, to_remove, n, m - 1);
    }
}

/// Adds `to_add` to the whitelist of account code ids, then removes each of
/// `to_remove` in turn; the first id to remove that is not (or no longer)
/// present is refused.
pub fn update_code_id_whitelist(whitelist: &Vec<u64>, to_add: &Vec<u64>, to_remove: &Vec<u64>) -> (r:
    Result<Vec<u64>, RegistryError>)
    ensures
        first_bad_code_id(whitelist@, to_add@, to_remove@, to_remove@.len() as int) matches Some(j) ==> r
            == Err::<Vec<u64>, RegistryError>(RegistryError::CodeIdNotInWhitelist(to_remove@[j])),
        first_bad_code_id(whitelist@, to_add@, to_remove@, to_remove@.len() as int) is None ==> r is Ok,
        r matches Ok(w) ==> {
            &&& forall|x: u64| #[trigger] w@.contains(x) <==> ((whitelist@.contains(x)
                || to_add@.contains(x)) && !to_remove@.contains(x))
        },
{
    broadcast use vstd::seq_lib::group_seq_properties;

    let mut w: Vec<u64> = Vec::new();
    let mut i: usize = 0;
    while i < whitelist.len()
        invariant
            0 <= i <= whitelist.len(),
            forall|x: u64| #[trigger] w@.contains(x) <==> whitelist@.take(i as int).contains(x),
        decreases whitelist.len() - i,
    {
        let ghost old_w = w@;
        proof {
            assert(whitelist@.take(i + 1) =~= whitelist@.take(i as int).push(whitelist@[i as int]));
        }
        w.push(whitelist[i]);
        proof {
            assert forall|x: u64| #[trigger] w@.contains(x) <==> whitelist@.take(i + 1).contains(x) by {
                vstd::seq_lib::lemma_seq_contains_after_push(old_w, whitelist@[i as int], x);
                vstd::seq_lib::lemma_seq_contains_after_push(whitelist@.take(i as int), whitelist@[i as int], x);
            }
        }
        i = i + 1;
    }
    proof {
        assert(whitelist@.take(whitelist.len() as int) =~= whitelist@);
    }
    let mut i: usize = 0;
    while i < to_add.len()
        invariant
            0 <= i <= to_add.len(),
            forall|x: u64| #[trigger] w@.contains(x) <==> (whitelist@.contains(x) || to_add@.take(
                i as int,
            ).contains(x)),
        decreases to_add.len() - i,
    {
        let ghost old_w = w@;
        proof {
            assert(to_add@.take(i + 1) =~= to_add@.take(i as int).push(to_add@[i as int]));
        }
        w.push(to_add[i]);
        proof {
            assert forall|x: u64| #[trigger] w@.contains(x) <==> (whitelist@.contains(x) || to_add@.take(i + 1).contains(x)) by {
                vstd::seq_lib::lemma_seq_contains_after_push(old_w, to_add@[i as int], x);
                vstd::seq_lib::lemma_seq_contains_after_push(to_add@.take(i as int), to_add@[i as int], x);
            }
        }
        i = i + 1;
    }
    proof {
        assert(to_add@.take(to_add.len() as int) =~= to_add@);
    }
    let ghost base = w@;
    let mut j: usize = 0;
    while j < to_remove.len()
        invariant
            0 <= j <= to_remove.len(),
            forall|x: u64| base.contains(x) <==> (whitelist@.contains(x) || to_add@.contains(x)),
            first_bad_code_id(whitelist@, to_add@, to_remove@, j as int) is None,
            forall|x: u64| #[trigger] w@.contains(x) <==> (base.contains(x) && !to_remove@.take(
                j as int,
            ).contains(x)),
        decreases to_remove.len() - j,
    {
        let c = to_remove[j];
        let mut found = false;
        let mut k: usize = 0;
        while k < w.len()
            invariant
                0 <= k <= w.len(),
                found <==> w@.take(k as int).contains(c),
            decreases w.len() - k,
        {
            proof {
                assert(w@.take(k + 1) =~= w@.take(k as int).push(w@[k as int]));
                vstd::seq_lib::lemma_seq_contains_after_push(w@.take(k as int), w@[k as int], c);
            }
            if w[k] == c {
                found = true;
            }
            k = k + 1;
        }
        proof {
            assert(w@.take(w.len() as int) =~= w@);
        }
        if !found {
            proof {
                assert(to_remove@[j as int] == c);
                assert(first_bad_code_id(whitelist@, to_add@, to_remove@, j + 1) == Some(j as int));
                lemma_bad_code_id_stays(whitelist@, to_add@, to_remove@, j + 1, to_remove@.len() as int);
            }
            return Err(RegistryError::CodeIdNotInWhitelist(c));
        }
        let mut nw: Vec<u64> = Vec::new();
        let mut k: usize = 0;
        while k < w.len()
            invariant
                0 <= k <= w.len(),
                forall|x: u64| #[trigger] nw@.contains(x) <==> (w@.take(k as int).contains(x) && x
                    != c),
            decreases w.len() - k,
        {
            let ghost old_nw = nw@;
            proof {
                assert(w@.take(k + 1) =~= w@.take(k as int).push(w@[k as int]));
            }
            if w[k] != c {
                nw.push(w[k]);
            }
            proof {
                assert forall|x: u64| #[trigger] nw@.contains(x) <==> (w@.take(k + 1).contains(x) && x != c) by {
                    vstd::seq_lib::lemma_seq_contains_after_push(old_nw, w@[k as int], x);
                    vstd::seq_lib::lemma_seq_contains_after_push(w@.take(k as int), w@[k as int], x);
                }
            }
            k = k + 1;
        }
        proof {
            assert(w@.take(w.len() as int) =~= w@);
            assert(to_remove@.take(j + 1) =~= to_remove@.take(j as int).push(c));
            assert(first_bad_code_id(whitelist@, to_add@, to_remove@, j + 1) is None);
            assert forall|x: u64| #[trigger] nw@.contains(x) <==> (base.contains(x) && !to_remove@.take(j + 1).contains(x)) by {
                vstd::seq_lib::lemma_seq_contains_after_push(to_remove@.take(j as int), c, x);
            }
        }
        w = nw;
        j = j + 1;
    }
    proof {
        assert(to_remove@.take(to_remove.len() as int) =~= to_remove@);
    }
    Ok(w)
}

/// A message an account is asked to execute, as far as the checks read it.
#[derive(Clone, Debug, PartialEq, Eq)]
pub enum AccountMsg {
    BankSend { amount: Vec<Coin> },
    WasmExecute { funds: Vec<Coin> },
    WasmInstantiate { funds: Vec<Coin> },
    WasmMigrate,
    IbcTransfer { amount: Coin },
    IbcSendPacket,
    /// Any other kind of message.
    Other,
}

/// Errors of the account contract.
#[derive(Clone, Debug, PartialEq, Eq)]
pub enum AccountError {
    ExpectedFunds,
    NotSupportedMessageWithFunds(String),
    NotSupportedMessage(String),
    UnexpectedReplyId(u64),
}

/// A message that sends funds is acceptable: it is a bank send, a contract
/// execution or instantiation, or an IBC transfer, and sends some non-zero amount.
pub open spec fn funds_msg_ok(m: AccountMsg) -> bool {
    match m {
        AccountMsg::BankSend { amount } => amount@.len() > 0 && forall|i: int|
            0 <= i < amount@.len() ==> #[trigger] amount@[i].amount != 0,
        AccountMsg::WasmExecute { funds } => funds@.len() > 0 && forall|i: int|
            0 <= i < funds@.len() ==> #[trigger] funds@[i].amount != 0,
        AccountMsg::WasmInstantiate { funds } => funds@.len() > 0 && forall|i: int|
            0 <= i < funds@.len() ==> #[trigger] funds@[i].amount != 0,
        AccountMsg::IbcTransfer { amount } => amount.amount != 0,
        _ => false,
    }
}

/// A message of a kind that may send funds.
pub open spec fn funds_msg_kind(m: AccountMsg) -> bool {
    m is BankSend || m is WasmExecute || m is WasmInstantiate || m is IbcTransfer
}

fn coins_ok(coins: &Vec<Coin>) -> (r: bool)
    ensures
        r == (coins@.len() > 0 && forall|i: int| 0 <= i < coins@.len() ==> #[trigger] coins@[i].amount
            != 0),
{
    if coins.len() == 0 {
        return false;
    }
    let mut i: usize = 0;
    while i < coins.len()
        invariant
            0 <= i <= coins.len(),
            forall|k: int| 0 <= k < i ==> #[trigger] coins@[k].amount != 0,
        decreases coins.len() - i,
    {
        if coins[i].amount == 0 {
            return false;
        }
        i = i + 1;
    }
    true
}

/// Checks the messages a service asks the account to execute with funds:
/// each must be of a kind that sends funds, and send some.
pub fn verify_msgs_with_funds(msgs: &Vec<AccountMsg>) -> (r: Result<(), AccountError>)
    ensures
        r is Ok <==> forall|i: int| 0 <= i < msgs@.len() ==> funds_msg_ok(#[trigger] msgs@[i]),
        r matches Err(e) ==> exists|i: int|
            0 <= i < msgs@.len() && !funds_msg_ok(#[trigger] msgs@[i]) && (forall|k: int|
                0 <= k < i ==> funds_msg_ok(#[trigger] msgs@[k])) && (if funds_msg_kind(msgs@[i]) {
                e == AccountError::ExpectedFunds
            } else {
                e matches AccountError::NotSupportedMessageWithFunds(m) && m@ == "msg"@
            }),
{
    let mut i: usize = 0;
    while i < msgs.len()
        invariant
            0 <= i <= msgs.len(),
            forall|k: int| 0 <= k < i ==> funds_msg_ok(#[trigger] msgs@[k]),
        decreases msgs.len() - i,
    {
        let ok = match &msgs[i] {
            AccountMsg::BankSend { amount } => coins_ok(amount),
            AccountMsg::WasmExecute { funds } => coins_ok(funds),
            AccountMsg::WasmInstantiate { funds } => coins_ok(funds),
            AccountMsg::IbcTransfer { amount } => amount.amount != 0,
            _ => {
                return Err(AccountError::NotSupportedMessageWithFunds("msg".to_string()));
            },
        };
        if !ok {
            return Err(AccountError::ExpectedFunds);
        }
        i = i + 1;
    }
    Ok(())
}

/// A message an account may execute for a service without funds.
pub open spec fn plain_msg_ok(m: AccountMsg) -> bool {
    m is IbcSendPacket || m is WasmExecute || m is WasmInstantiate || m is WasmMigrate
}

/// Checks the messages a service asks the account to execute without funds.
pub fn verify_msgs(msgs: &Vec<AccountMsg>) -> (r: Result<(), AccountError>)
    ensures
        r is Ok <==> forall|i: int| 0 <= i < msgs@.len() ==> plain_msg_ok(#[trigger] msgs@[i]),
        r matches Err(e) ==> (e matches AccountError::NotSupportedMessage(m) && m@ == "msg"@),
{
    let mut i: usize = 0;
    while i < msgs.len()
        invariant
            0 <= i <= msgs.len(),
            forall|k: int| 0 <= k < i ==> plain_msg_ok(#[trigger] msgs@[k]),
        decreases msgs.len() - i,
    {
        match &msgs[i] {
            AccountMsg::IbcSendPacket => {},
            AccountMsg::WasmExecute { .. } => {},
            AccountMsg::WasmInstantiate { .. } => {},
            AccountMsg::WasmMigrate => {},
            _ => {
                return Err(AccountError::NotSupportedMessage("msg".to_string()));
            },
        }
        i = i + 1;
    }
    Ok(())
}

/// The services manager's migrations.
#[derive(Clone, Copy, Debug, PartialEq, Eq, Structural)]
pub enum MigrateMsg {
    NoStateChange,
}

/// Two times in the same cycle have the same cycle start.
pub proof fn lemma_same_cycle_same_start(a: Timestamp, b: Timestamp, cycle: u64)
    requires
        cycle > 0,
        a.spec_seconds() / cycle as int == b.spec_seconds() / cycle as int,
    ensures
        a.spec_seconds() - a.spec_seconds() % cycle as int == b.spec_seconds() - b.spec_seconds()
            % cycle as int,
{
    vstd::arithmetic::div_mod::lemma_fundamental_div_mod(a.spec_seconds(), cycle as int);
    vstd::arithmetic::div_mod::lemma_fundamental_div_mod(b.spec_seconds(), cycle as int);
}

} // verus!
