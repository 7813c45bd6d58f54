use vstd::prelude::*;

verus! {

/// A resolved forwarding destination.
#[derive(Debug)]
pub struct Origin {
    /// Destination URI (scheme and authority).
    pub uri: String,
    /// Forwarding timeout in milliseconds.
    pub timeout: u32,
    /// Attempt count at which an alert is raised.
    pub alert_threshold: Option<u32>,
    pub alert_email: Option<String>,
    pub smtp_host: Option<String>,
    pub smtp_port: Option<u16>,
    pub smtp_username: Option<String>,
    pub smtp_password: Option<String>,
    pub smtp_tls: bool,
}

fn copy_opt_string(s: &Option<String>) -> (r: Option<String>)
    ensures
        r == *s,
{
    match s {
        Some(v) => Some(v.clone()),
        None => None,
    }
}

impl Origin {
    /// A field-by-field copy, equal to `self`.
    pub fn copy(&self) -> (r: Origin)
        ensures
            r == *self,
    {
        Origin {
            uri: self.uri.clone(),
            timeout: self.timeout,
            alert_threshold: self.alert_threshold,
            alert_email: copy_opt_string(&self.alert_email),
            smtp_host: copy_opt_string(&self.smtp_host),
            smtp_port: self.smtp_port,
            smtp_username: copy_opt_string(&self.smtp_username),
            smtp_password: copy_opt_string(&self.smtp_password),
            smtp_tls: self.smtp_tls,
        }
    }
}

/// One configured mapping from an inbound authority to an origin.
#[derive(Debug)]
pub struct OriginEntry {
    pub domain: String,
    pub origin: Origin,
}

/// The origin that `entries` maps `authority` to: the latest entry for it wins.
pub open spec fn lookup_in(entries: Seq<OriginEntry>, authority: Seq<char>) -> Option<Origin>
    decreases entries.len(),
{
    if entries.len() == 0 {
        None
    } else if entries.last().domain@ == authority {
        Some(entries.last().origin)
    } else {
        lookup_in(entries.drop_last(), authority)
    }
}

/// The last entry for `d` in `t`, at `k`, is what `t` maps `d` to.
proof fn lemma_lookup_last_match(t: Seq<OriginEntry>, k: int, d: Seq<char>)
    requires
        0 <= k < t.len(),
        t[k].domain@ == d,
        forall|j: int| k < j < t.len() ==> t[j].domain@ != d,
    ensures
        lookup_in(t, d) == Some(t[k].origin),
    decreases t.len(),
{
    if k < t.len() - 1 {
        let u = t.drop_last();
        assert(t.last() == t[t.len() - 1]);
        lemma_lookup_last_match(u, k, d);
    }
}

/// Two entry lists that differ only at entries for other authorities map
/// `a` alike.
proof fn lemma_lookup_agrees(s: Seq<OriginEntry>, t: Seq<OriginEntry>, a: Seq<char>)
    requires
        s.len() == t.len(),
        forall|j: int|
            0 <= j < s.len() ==> s[j] == t[j] || (s[j].domain@ != a && t[j].domain@ != a),
    ensures
        lookup_in(s, a) == lookup_in(t, a),
    decreases s.len(),
{
    if s.len() > 0 {
        lemma_lookup_agrees(s.drop_last(), t.drop_last(), a);
    }
}

/// In-memory snapshot of the origin directory, keyed by inbound authority.
pub struct OriginCache {
    entries: Vec<OriginEntry>,
}

impl View for OriginCache {
    type V = Seq<OriginEntry>;

    closed spec fn view(&self) -> Seq<OriginEntry> {
        self.entries@
    }
}

impl OriginCache {
    /// The origin, if any, that handles `authority`.
    pub open spec fn lookup(&self, authority: Seq<char>) -> Option<Origin> {
        lookup_in(self@, authority)
    }

    pub fn new() -> (r: OriginCache)
        ensures
            r@ == Seq::<OriginEntry>::empty(),
            forall|a: Seq<char>| r.lookup(a) is None,
    {
        OriginCache { entries: Vec::new() }
    }

    /// The number of entries held.
    pub fn len(&self) -> (r: usize)
        ensures
            r == self@.len(),
    {
        self.entries.len()
    }

    /// Replaces the whole snapshot with a fresh read of the directory.
    pub fn refresh(&mut self, entries: Vec<OriginEntry>)
        ensures
            final(self)@ == entries@,
    {
        self.entries = entries;
    }

    /// Maps `domain` to `origin`. The latest entry for `domain` is replaced
    /// in place; only a domain not yet present adds an entry.
    pub fn insert(&mut self, domain: String, origin: Origin)
        ensures
            final(self).lookup(domain@) == Some(origin),
            forall|a: Seq<char>| a != domain@ ==> final(self).lookup(a) == old(self).lookup(a),
            (exists|j: int| 0 <= j < old(self)@.len() && old(self)@[j].domain@ == domain@)
                ==> final(self)@.len() == old(self)@.len(),
            final(self)@.len() <= old(self)@.len() + 1,
    {
        let ghost d = domain@;
        let ghost o = origin;
        let mut i: usize = self.entries.len();
        while i > 0
            invariant
                i <= self.entries@.len(),
                self.entries@ == old(self)@,
                d == domain@,
                o == origin,
                forall|j: int| i <= j < self.entries@.len() ==> self.entries@[j].domain@ != d,
            decreases i,
        {
            if self.entries[i - 1].domain == domain {
                let k = i - 1;
                self.entries[k] = OriginEntry { domain, origin };
                proof {
                    lemma_lookup_last_match(self@, k as int, d);
                    assert forall|a: Seq<char>| a != d implies lookup_in(self@, a) == lookup_in(
                        old(self)@,
                        a,
                    ) by {
                        lemma_lookup_agrees(old(self)@, self@, a);
                    }
                }
                return;
            }
            i = i - 1;
        }
        self.entries.push(OriginEntry { domain, origin });
        proof {
            assert(self@.drop_last() =~= old(self)@);
            assert(self@.last().domain@ == d);
            assert forall|j: int| 0 <= j < old(self)@.len() implies old(self)@[j].domain@ != d by {
                assert(self.entries@[j] == old(self)@[j]);
            }
        }
    }

    /// Resolves `authority` to its origin; absence means no configuration.
    pub fn resolve(&self, authority: &String) -> (r: Option<Origin>)
        ensures
            r == self.lookup(authority@),
    {
        let mut i: usize = self.entries.len();
        assert(self.entries@.subrange(0, i as int) =~= self.entries@);
        while i > 0
            invariant
                i <= self.entries@.len(),
                lookup_in(self.entries@, authority@) == lookup_in(
                    self.entries@.subrange(0, i as int),
                    authority@,
                ),
            decreases i,
        {
            let ghost pre = self.entries@.subrange(0, i as int);
            assert(pre.drop_last() =~= self.entries@.subrange(0, i - 1));
            let e = &self.entries[i - 1];
            if e.domain == *authority {
                return Some(e.origin.copy());
            }
            i = i - 1;
        }
        None
    }
}

} // verus!
