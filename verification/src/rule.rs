//! The forwarding rule model, socket address formatting, and the sorted set
//! of rule IDs that the runtime works on.

use vstd::prelude::*;
use vstd::string::*;
use crate::order::{insert_sorted, sort_dedup, sorted_contains, strictly_sorted, views};
use crate::text::{append_decimal, chars_of, dec_str};

verus! {

/// The transport protocol of a rule.
#[derive(Debug, Clone, Copy, PartialEq, Eq, Structural)]
pub enum Protocol {
    Tcp,
    Udp,
}

impl Protocol {
    /// The lower-case name that configuration files and rule names use.
    pub open spec fn spec_name(self) -> Seq<char> {
        match self {
            Protocol::Tcp => "tcp"@,
            Protocol::Udp => "udp"@,
        }
    }

    /// The upper-case name that messages and firewall commands use.
    pub open spec fn spec_upper_name(self) -> Seq<char> {
        match self {
            Protocol::Tcp => "TCP"@,
            Protocol::Udp => "UDP"@,
        }
    }

    pub fn as_str(&self) -> (r: &'static str)
        ensures
            r@ == self.spec_name(),
    {
        match self {
            Protocol::Tcp => "tcp",
            Protocol::Udp => "udp",
        }
    }

    /// `as_str().to_uppercase()`.
    pub fn upper_name(&self) -> (r: &'static str)
        ensures
            r@ == self.spec_upper_name(),
    {
        match self {
            Protocol::Tcp => "TCP",
            Protocol::Udp => "UDP",
        }
    }
}

/// A UTC instant: seconds since the Unix epoch and the nanoseconds within that second.
#[derive(Debug, Clone, Copy, PartialEq, Eq, Structural)]
pub struct Timestamp {
    pub secs: i64,
    pub nanos: u32,
}

impl Timestamp {
    pub fn new(secs: i64, nanos: u32) -> (r: Timestamp)
        ensures
            r.secs == secs,
            r.nanos == nanos,
    {
        Timestamp { secs, nanos }
    }
}

/// One port forwarding rule.
#[derive(Debug, PartialEq, Eq)]
pub struct Rule {
    pub id: String,
    pub name: String,
    pub enabled: bool,
    pub protocol: Protocol,
    pub listen_host: String,
    pub listen_port: u16,
    pub target_host: String,
    pub target_port: u16,
    pub remark: String,
    pub created_at: Timestamp,
    pub updated_at: Timestamp,
}

impl Clone for Rule {
    fn clone(&self) -> (r: Self)
        ensures
            r == *self,
    {
        Rule {
            id: self.id.clone(),
            name: self.name.clone(),
            enabled: self.enabled,
            protocol: self.protocol,
            listen_host: self.listen_host.clone(),
            listen_port: self.listen_port,
            target_host: self.target_host.clone(),
            target_port: self.target_port,
            remark: self.remark.clone(),
            created_at: self.created_at,
            updated_at: self.updated_at,
        }
    }
}

/// The rules that `rules.toml` holds.
#[derive(Debug, PartialEq, Eq)]
pub struct RuleSet {
    pub rules: Vec<Rule>,
}

impl RuleSet {
    /// The empty rule set that a missing or blank rules file stands for.
    pub fn new() -> (r: RuleSet)
        ensures
            r.rules@.len() == 0,
    {
        RuleSet { rules: Vec::new() }
    }
}

/// Whether the text holds a `:`.
pub open spec fn has_colon(s: Seq<char>) -> bool {
    exists|i: int| 0 <= i < s.len() && s[i] == ':'
}

/// `host:port`, with the host in brackets when it holds a `:` (an IPv6 address).
pub open spec fn socket_addr(host: Seq<char>, port: nat) -> Seq<char> {
    if has_colon(host) {
        "["@ + host + "]:"@ + dec_str(port)
    } else {
        host + ":"@ + dec_str(port)
    }
}

/// Whether `host` holds a `:`.
pub fn contains_colon(host: &str) -> (r: bool)
    ensures
        r == has_colon(host@),
{
    let cs = chars_of(host);
    let mut i: usize = 0;
    while i < cs.len()
        invariant
            cs@ == host@,
            i <= cs@.len(),
            forall|j: int| 0 <= j < i ==> cs@[j] != ':',
        decreases cs@.len() - i,
    {
        if cs[i] == ':' {
            return true;
        }
        i = i + 1;
    }
    false
}

/// Formats a host and a port as a socket address: `127.0.0.1:8080`, `[::1]:8080`.
pub fn format_socket_addr(host: &str, port: u16) -> (r: String)
    ensures
        r@ == socket_addr(host@, port as nat),
{
    let mut r: String;
    if contains_colon(host) {
        r = String::from_str("[");
        r.append(host);
        r.append("]:");
    } else {
        r = String::from_str(host);
        r.append(":");
    }
    append_decimal(&mut r, port as u64);
    r
}

/// A set of rule IDs, kept in increasing order; it iterates as a `BTreeSet<String>` does.
#[derive(Debug, PartialEq, Eq)]
pub struct IdSet {
    ids: Vec<String>,
}

impl View for IdSet {
    type V = Seq<Seq<char>>;

    /// The IDs in increasing order.
    closed spec fn view(&self) -> Seq<Seq<char>> {
        views(self.ids@)
    }
}

impl IdSet {
    #[verifier::type_invariant]
    spec fn sorted(self) -> bool {
        strictly_sorted(views(self.ids@))
    }

    pub fn new() -> (r: IdSet)
        ensures
            r@.len() == 0,
    {
        let r = IdSet { ids: Vec::new() };
        assert(views(r.ids@) =~= Seq::<Seq<char>>::empty());
        r
    }

    /// The set of the given IDs.
    pub fn from_vec(ids: Vec<String>) -> (r: IdSet)
        ensures
            r@.to_set() == views(ids@).to_set(),
            strictly_sorted(r@),
    {
        IdSet { ids: sort_dedup(ids) }
    }

    pub fn len(&self) -> (r: usize)
        ensures
            r == self@.len(),
    {
        self.ids.len()
    }

    pub fn is_empty(&self) -> (r: bool)
        ensures
            r == (self@.len() == 0),
    {
        self.ids.len() == 0
    }

    /// The `i`-th smallest ID.
    pub fn get(&self, i: usize) -> (r: &String)
        requires
            i < self@.len(),
        ensures
            r@ == self@[i as int],
    {
        &self.ids[i]
    }

    pub fn contains(&self, id: &str) -> (r: bool)
        ensures
            r == self@.contains(id@),
    {
        proof {
            use_type_invariant(self);
        }
        sorted_contains(&self.ids, id)
    }

    pub fn insert(&mut self, id: String)
        ensures
            final(self)@.to_set() == old(self)@.to_set().insert(id@),
            strictly_sorted(final(self)@),
    {
        proof {
            use_type_invariant(&*self);
        }
        let mut ids: Vec<String> = Vec::new();
        std::mem::swap(&mut ids, &mut self.ids);
        insert_sorted(&mut ids, id);
        self.ids = ids;
    }

    pub fn clear(&mut self)
        ensures
            final(self)@.len() == 0,
    {
        self.ids = Vec::new();
        assert(views(self.ids@) =~= Seq::<Seq<char>>::empty());
    }

    /// A copy of the set.
    pub fn duplicate(&self) -> (r: IdSet)
        ensures
            r@ == self@,
    {
        proof {
            use_type_invariant(self);
        }
        let mut ids: Vec<String> = Vec::new();
        let mut i: usize = 0;
        while i < self.ids.len()
            invariant
                i <= self.ids@.len(),
                ids@.len() == i,
                forall|j: int| 0 <= j < i ==> (#[trigger] ids@[j])@ == self.ids@[j]@,
            decreases self.ids@.len() - i,
        {
            ids.push(self.ids[i].clone());
            i = i + 1;
        }
        assert(views(ids@) =~= views(self.ids@));
        IdSet { ids }
    }
}

} // verus!
