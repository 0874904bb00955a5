//! Selection of resource listings: the filters that list queries name, the
//! offset/limit window, and the query string of a job listing.

use vstd::prelude::*;

use crate::text::{contains_text, decimal, decimal_text, index_of, join3};

verus! {

/// The items of `s` from `offset` on, at most `limit` of them.
pub open spec fn window<T>(s: Seq<T>, offset: Option<u32>, limit: Option<u32>) -> Seq<T> {
    let rest = match offset {
        Some(o) => if o <= s.len() {
            s.subrange(o as int, s.len() as int)
        } else {
            Seq::empty()
        },
        None => s,
    };
    match limit {
        Some(l) => if l <= rest.len() {
            rest.subrange(0, l as int)
        } else {
            rest
        },
        None => rest,
    }
}

/// The items from `offset` on, at most `limit` of them.
pub fn page<T>(items: Vec<T>, offset: Option<u32>, limit: Option<u32>) -> (r: Vec<T>)
    ensures
        r@ == window(items@, offset, limit),
{
    let mut v = items;
    match offset {
        Some(o) => {
            if (o as usize) <= v.len() {
                v = v.split_off(o as usize);
            } else {
                v = Vec::new();
                assert(v@ =~= Seq::<T>::empty());
            }
        },
        None => {},
    }
    match limit {
        Some(l) => v.truncate(l as usize),
        None => {},
    }
    v
}

/// `name` contains the wanted text, or none is wanted.
pub open spec fn text_wanted(want: Option<String>, name: Seq<char>) -> bool {
    match want {
        Some(q) => index_of(name, q@) is Some,
        None => true,
    }
}

/// `value` equals the wanted text, or none is wanted.
pub open spec fn equal_wanted(want: Option<String>, value: Seq<char>) -> bool {
    match want {
        Some(q) => value == q@,
        None => true,
    }
}

/// `value` equals the wanted flag, or none is wanted.
pub open spec fn flag_wanted(want: Option<bool>, value: bool) -> bool {
    match want {
        Some(q) => value == q,
        None => true,
    }
}

fn wants_text(want: &Option<String>, name: &str) -> (r: bool)
    ensures
        r == text_wanted(*want, name@),
{
    match want {
        Some(q) => contains_text(name, q.as_str()),
        None => true,
    }
}

fn wants_equal(want: &Option<String>, value: &str) -> (r: bool)
    ensures
        r == equal_wanted(*want, value@),
{
    match want {
        Some(q) => *q == String::from_str(value),
        None => true,
    }
}

fn wants_flag(want: Option<bool>, value: bool) -> (r: bool)
    ensures
        r == flag_wanted(want, value),
{
    match want {
        Some(q) => value == q,
        None => true,
    }
}

/// A network as the console shows it.
pub struct Network {
    pub uuid: String,
    pub name: String,
    pub subnet: String,
    pub netmask: String,
    pub gateway: String,
    pub provision_start_ip: String,
    pub provision_end_ip: String,
    pub vlan_id: u16,
    pub fabric: bool,
    pub owner_uuid: Option<String>,
    pub description: Option<String>,
    pub created_at: String,
    pub updated_at: String,
}

/// Query of a network listing.
pub struct NetworkListParams {
    /// Text the name must contain.
    pub name: Option<String>,
    pub fabric: Option<bool>,
    pub limit: Option<u32>,
    pub offset: Option<u32>,
}

/// The networks of `s` that the query selects, in order.
pub open spec fn networks_selected(p: NetworkListParams, s: Seq<Network>) -> Seq<Network>
    decreases s.len(),
{
    if s.len() == 0 {
        s
    } else {
        let init = networks_selected(p, s.drop_last());
        if p.selects(s.last()) {
            init.push(s.last())
        } else {
            init
        }
    }
}

impl NetworkListParams {
    /// The query's filters select `n`.
    pub open spec fn selects(self, n: Network) -> bool {
        text_wanted(self.name, n.name@) && flag_wanted(self.fabric, n.fabric)
    }

    /// Whether the query's filters select `n`.
    pub fn matches(&self, n: &Network) -> (r: bool)
        ensures
            r == self.selects(*n),
    {
        wants_text(&self.name, n.name.as_str()) && wants_flag(self.fabric, n.fabric)
    }

    /// The networks that the query selects, then its window of them.
    pub fn select(&self, items: Vec<Network>) -> (r: Vec<Network>)
        ensures
            r@ == window(networks_selected(*self, items@), self.offset, self.limit),
    {
        let mut items = items;
        let ghost all = items@;
        let mut kept: Vec<Network> = Vec::new();
        // Walk from the back, so that each step pops the last item.
        while items.len() > 0
            invariant
                networks_selected(*self, all) == networks_selected(*self, items@) + kept@.reverse(),
            decreases items.len(),
        {
            let ghost before = items@;
            let n = items.pop().unwrap();
            assert(before.drop_last() == items@);
            let ghost old_kept = kept@;
            if self.matches(&n) {
                kept.push(n);
                assert(kept@.reverse() =~= seq![n] + old_kept.reverse());
            }
        }
        assert(networks_selected(*self, items@) =~= Seq::<Network>::empty());
        let mut ordered: Vec<Network> = Vec::new();
        while kept.len() > 0
            invariant
                networks_selected(*self, all) == ordered@ + kept@.reverse(),
            decreases kept.len(),
        {
            let ghost before = kept@;
            let n = kept.pop().unwrap();
            ordered.push(n);
            assert(ordered@ + kept@.reverse() =~= ordered@.drop_last() + before.reverse());
        }
        assert(ordered@ =~= networks_selected(*self, all));
        page(ordered, self.offset, self.limit)
    }
}

/// `value`, read as zero when missing, is at least the wanted minimum.
pub open spec fn minimum_wanted(want: Option<u64>, value: Option<u64>) -> bool {
    match want {
        Some(q) => match value {
            Some(v) => v >= q,
            None => 0 >= q,
        },
        None => true,
    }
}

fn wants_minimum(want: Option<u64>, value: Option<u64>) -> (r: bool)
    ensures
        r == minimum_wanted(want, value),
{
    match want {
        Some(q) => {
            let v = match value {
                Some(v) => v,
                None => 0,
            };
            v >= q
        },
        None => true,
    }
}

/// Query of a package listing.
pub struct PackageListParams {
    /// Text the name must contain.
    pub name: Option<String>,
    /// Least memory, in MiB.
    pub memory: Option<u64>,
    /// Least number of virtual CPUs.
    pub vcpus: Option<u32>,
    pub limit: Option<u32>,
    pub offset: Option<u32>,
}

impl PackageListParams {
    /// The query's filters select a package with these attributes.
    pub open spec fn selects(self, name: Seq<char>, memory: Option<u64>, vcpus: Option<u32>) -> bool {
        &&& text_wanted(self.name, name)
        &&& minimum_wanted(self.memory, memory)
        &&& minimum_wanted(
            match self.vcpus {
                Some(v) => Some(v as u64),
                None => None,
            },
            match vcpus {
                Some(v) => Some(v as u64),
                None => None,
            },
        )
    }

    /// Whether the query's filters select a package with these attributes.
    pub fn matches(&self, name: &str, memory: Option<u64>, vcpus: Option<u32>) -> (r: bool)
        ensures
            r == self.selects(name@, memory, vcpus),
    {
        let want_vcpus = match self.vcpus {
            Some(v) => Some(v as u64),
            None => None,
        };
        let have_vcpus = match vcpus {
            Some(v) => Some(v as u64),
            None => None,
        };
        wants_text(&self.name, name) && wants_minimum(self.memory, memory) && wants_minimum(
            want_vcpus,
            have_vcpus,
        )
    }
}

/// Query of a compute-node listing.
pub struct ServerListParams {
    /// Text the hostname must contain.
    pub hostname: Option<String>,
    pub status: Option<String>,
    pub setup: Option<bool>,
    pub limit: Option<u32>,
    pub offset: Option<u32>,
}

impl ServerListParams {
    /// The query's filters select a server with these attributes.
    pub open spec fn selects(self, hostname: Seq<char>, status: Seq<char>, setup: bool) -> bool {
        text_wanted(self.hostname, hostname) && equal_wanted(self.status, status) && flag_wanted(
            self.setup,
            setup,
        )
    }

    /// Whether the query's filters select a server with these attributes.
    pub fn matches(&self, hostname: &str, status: &str, setup: bool) -> (r: bool)
        ensures
            r == self.selects(hostname@, status@, setup),
    {
        wants_text(&self.hostname, hostname) && wants_equal(&self.status, status) && wants_flag(
            self.setup,
            setup,
        )
    }
}

/// Query of an image listing.
pub struct ImageListParams {
    /// Text the name must contain.
    pub name: Option<String>,
    pub os: Option<String>,
    pub state: Option<String>,
    pub owner: Option<String>,
    pub public: Option<bool>,
    pub limit: Option<u32>,
    pub offset: Option<u32>,
}

impl ImageListParams {
    /// The query's filters select an image with these attributes; an image
    /// without an owner fails any owner filter.
    pub open spec fn selects(
        self,
        name: Seq<char>,
        os: Seq<char>,
        state: Seq<char>,
        owner: Option<Seq<char>>,
        public: bool,
    ) -> bool {
        &&& text_wanted(self.name, name)
        &&& equal_wanted(self.os, os)
        &&& equal_wanted(self.state, state)
        &&& match self.owner {
            Some(q) => owner == Some(q@),
            None => true,
        }
        &&& flag_wanted(self.public, public)
    }

    /// Whether the query's filters select an image with these attributes.
    pub fn matches(
        &self,
        name: &str,
        os: &str,
        state: &str,
        owner: Option<&str>,
        public: bool,
    ) -> (r: bool)
        ensures
            r == self.selects(
                name@,
                os@,
                state@,
                match owner {
                    Some(o) => Some(o@),
                    None => None,
                },
                public,
            ),
    {
        let owner_ok = match &self.owner {
            Some(q) => match owner {
                Some(o) => *q == String::from_str(o),
                None => false,
            },
            None => true,
        };
        wants_text(&self.name, name) && wants_equal(&self.os, os) && wants_equal(
            &self.state,
            state,
        ) && owner_ok && wants_flag(self.public, public)
    }
}

/// Query of a virtual-machine listing.
pub struct VmListParams {
    pub owner_uuid: Option<String>,
    pub state: Option<String>,
    pub alias: Option<String>,
    pub tag: Option<String>,
    /// Restrict the listing to the machines of one compute node.
    pub server_uuid: Option<String>,
    pub limit: Option<u32>,
    pub offset: Option<u32>,
}

/// Which machines a listing asks the compute service for.
pub enum VmScope {
    All,
    OnServer(String),
}

impl VmListParams {
    /// The machines the listing covers: those of the named compute node, or
    /// all of them.
    pub fn scope(&self) -> (r: VmScope)
        ensures
            self.server_uuid is None ==> r is All,
            self.server_uuid is Some ==> (r matches VmScope::OnServer(s) && s@
                == self.server_uuid->Some_0@),
    {
        match &self.server_uuid {
            Some(s) => VmScope::OnServer(s.clone()),
            None => VmScope::All,
        }
    }
}

/// Query of a job listing.
pub struct JobListParams {
    pub vm_uuid: Option<String>,
    pub execution: Option<String>,
    pub name: Option<String>,
    pub limit: Option<u32>,
    pub offset: Option<u32>,
}

/// `key=value` when a value is given.
pub open spec fn text_pair(key: Seq<char>, value: Option<String>) -> Seq<Seq<char>> {
    match value {
        Some(v) => seq![key + "="@ + v@],
        None => Seq::empty(),
    }
}

/// `key=n` when a number is given.
pub open spec fn number_pair(key: Seq<char>, value: Option<u32>) -> Seq<Seq<char>> {
    match value {
        Some(n) => seq![key + "="@ + decimal(n as nat)],
        None => Seq::empty(),
    }
}

/// The parts joined with `&`.
pub open spec fn joined(parts: Seq<Seq<char>>) -> Seq<char>
    decreases parts.len(),
{
    if parts.len() == 0 {
        Seq::empty()
    } else if parts.len() == 1 {
        parts[0]
    } else {
        joined(parts.drop_last()) + "&"@ + parts.last()
    }
}

impl JobListParams {
    /// The query's `key=value` pairs, in the order the job service reads them.
    pub open spec fn pairs(self) -> Seq<Seq<char>> {
        text_pair("vm_uuid"@, self.vm_uuid) + text_pair("execution"@, self.execution) + text_pair(
            "name"@,
            self.name,
        ) + number_pair("limit"@, self.limit) + number_pair("offset"@, self.offset)
    }

    /// The query string to append to the job service's listing path: empty
    /// when no parameter is given, otherwise `?` and the pairs joined by `&`.
    pub open spec fn query(self) -> Seq<char> {
        if self.pairs().len() == 0 {
            Seq::empty()
        } else {
            "?"@ + joined(self.pairs())
        }
    }

    /// The query string to append to the job service's listing path.
    pub fn query_string(&self) -> (r: String)
        ensures
            r@ == self.query(),
    {
        let mut parts: Vec<String> = Vec::new();
        match &self.vm_uuid {
            Some(v) => parts.push(join3("vm_uuid", "=", v.as_str())),
            None => {},
        }
        assert(parts.deep_view() =~= text_pair("vm_uuid"@, self.vm_uuid));
        let ghost p1 = parts.deep_view();
        match &self.execution {
            Some(v) => parts.push(join3("execution", "=", v.as_str())),
            None => {},
        }
        assert(parts.deep_view() =~= p1 + text_pair("execution"@, self.execution));
        let ghost p2 = parts.deep_view();
        match &self.name {
            Some(v) => parts.push(join3("name", "=", v.as_str())),
            None => {},
        }
        assert(parts.deep_view() =~= p2 + text_pair("name"@, self.name));
        let ghost p3 = parts.deep_view();
        match self.limit {
            Some(n) => {
                let d = decimal_text(n as u64);
                parts.push(join3("limit", "=", d.as_str()));
            },
            None => {},
        }
        assert(parts.deep_view() =~= p3 + number_pair("limit"@, self.limit));
        let ghost p4 = parts.deep_view();
        match self.offset {
            Some(n) => {
                let d = decimal_text(n as u64);
                parts.push(join3("offset", "=", d.as_str()));
            },
            None => {},
        }
        assert(parts.deep_view() =~= p4 + number_pair("offset"@, self.offset));
        assert(parts.deep_view() =~= self.pairs());
        if parts.len() == 0 {
            return String::new();
        }
        let mut r = String::from_str("?");
        r.append(parts[0].as_str());
        let mut i: usize = 1;
        proof {
            reveal_strlit("?");
            assert(parts.deep_view().subrange(0, 1) =~= seq![parts.deep_view()[0]]);
        }
        while i < parts.len()
            invariant
                1 <= i <= parts.len(),
                r@ == "?"@ + joined(parts.deep_view().subrange(0, i as int)),
            decreases parts.len() - i,
        {
            r.append("&");
            r.append(parts[i].as_str());
            proof {
                let s = parts.deep_view().subrange(0, i as int + 1);
                assert(s.drop_last() =~= parts.deep_view().subrange(0, i as int));
                assert(r@ =~= "?"@ + joined(s));
            }
            i = i + 1;
        }
        assert(parts.deep_view().subrange(0, parts.len() as int) =~= parts.deep_view());
        r
    }
}

} // verus!
