//! Per-call request context and the policy/type-system references it
//! carries, plus the privileged-path predicate that guards writes into
//! protected auth types.

use vstd::prelude::*;
use vstd::string::StrSliceExecFns;

verus! {

/// Character-for-character equality of two strings.
pub fn str_eq(a: &str, b: &str) -> (r: bool)
    ensures
        r == (a@ == b@),
{
    let alen = a.unicode_len();
    let blen = b.unicode_len();
    if alen != blen {
        return false;
    }
    let mut i: usize = 0;
    while i < alen
        invariant
            alen == a@.len(),
            blen == b@.len(),
            alen == blen,
            i <= alen,
            forall|j: int| 0 <= j < i ==> a@[j] == b@[j],
        decreases alen - i,
    {
        if a.get_char(i) != b.get_char(i) {
            return false;
        }
        i += 1;
    }
    proof {
        assert(a@ =~= b@);
    }
    true
}

/// Whether `prefix` is an initial segment of `s`, character by character.
pub fn str_starts_with(s: &str, prefix: &str) -> (r: bool)
    ensures
        r == (prefix@.len() <= s@.len() && s@.subrange(0, prefix@.len() as int) == prefix@),
{
    let plen = prefix.unicode_len();
    let slen = s.unicode_len();
    if plen > slen {
        return false;
    }
    let mut i: usize = 0;
    while i < plen
        invariant
            plen == prefix@.len(),
            slen == s@.len(),
            plen <= slen,
            i <= plen,
            forall|j: int| 0 <= j < i ==> s@[j] == prefix@[j],
        decreases plen - i,
    {
        if s.get_char(i) != prefix.get_char(i) {
            proof {
                if s@.subrange(0, plen as int) == prefix@ {
                    assert(s@.subrange(0, plen as int)[i as int] == s@[i as int]);
                }
            }
            return false;
        }
        i += 1;
    }
    proof {
        assert(s@.subrange(0, plen as int) =~= prefix@);
    }
    true
}

/// The privileged internal path: the platform's own version together with
/// an auth route.
pub open spec fn spec_is_auth_path(version_id: Seq<char>, routing_path: Seq<char>) -> bool {
    &&& version_id == "__chiselstrike"@
    &&& routing_path.len() >= "/auth/"@.len()
    &&& routing_path.subrange(0, "/auth/"@.len() as int) == "/auth/"@
}

/// Whether a call arrives over the recognized privileged internal path;
/// only such calls may write into protected auth types.
pub fn is_auth_path(version_id: &str, routing_path: &str) -> (r: bool)
    ensures
        r == spec_is_auth_path(version_id@, routing_path@),
{
    str_eq(version_id, "__chiselstrike") && str_starts_with(routing_path, "/auth/")
}

/// The policy rules of the enclosing version; their content is outside
/// this core, which only passes the reference through to the planner.
pub struct PolicySystem {}

/// One type known to the enclosing version: its name, whether values can
/// be stored into it, and whether it is a protected auth type.
#[derive(Debug)]
pub struct TypeEntry {
    pub name: String,
    pub is_entity: bool,
    pub is_auth: bool,
}

/// The types of the enclosing version, in declaration order.
#[derive(Debug)]
pub struct TypeSystem {
    pub types: Vec<TypeEntry>,
}

/// The first entry of the given name, if any.
pub open spec fn lookup_in(types: Seq<TypeEntry>, name: Seq<char>) -> Option<TypeEntry>
    decreases types,
{
    if types.len() == 0 {
        None
    } else if types[0].name@ == name {
        Some(types[0])
    } else {
        lookup_in(types.drop_first(), name)
    }
}

proof fn lemma_lookup_in_skip(types: Seq<TypeEntry>, name: Seq<char>, i: int)
    requires
        0 <= i <= types.len(),
        forall|j: int| 0 <= j < i ==> types[j].name@ != name,
    ensures
        lookup_in(types, name) == lookup_in(types.skip(i), name),
    decreases i,
{
    if i == 0 {
        assert(types.skip(0) =~= types);
    } else {
        lemma_lookup_in_skip(types, name, i - 1);
        assert(types.skip(i - 1)[0] == types[i - 1]);
        assert(types[i - 1].name@ != name);
        assert(types.skip(i - 1).drop_first() =~= types.skip(i));
    }
}

impl TypeSystem {
    /// Find the first type of the given name.
    pub fn lookup_type(&self, name: &str) -> (r: Option<&TypeEntry>)
        ensures
            match r {
                Some(t) => lookup_in(self.types@, name@) == Some(*t),
                None => lookup_in(self.types@, name@) is None,
            },
    {
        let mut i: usize = 0;
        while i < self.types.len()
            invariant
                i <= self.types@.len(),
                forall|j: int| 0 <= j < i ==> self.types@[j].name@ != name@,
            decreases self.types@.len() - i,
        {
            if str_eq(self.types[i].name.as_str(), name) {
                proof {
                    lemma_lookup_in_skip(self.types@, name@, i as int);
                    assert(self.types@.skip(i as int)[0] == self.types@[i as int]);
                }
                return Some(&self.types[i]);
            }
            i += 1;
        }
        proof {
            lemma_lookup_in_skip(self.types@, name@, self.types@.len() as int);
            assert(self.types@.skip(self.types@.len() as int) =~= Seq::<TypeEntry>::empty());
        }
        None
    }
}

/// The per-call metadata handed in by the calling environment.
#[derive(Debug)]
pub struct ChiselRequestContext {
    pub version_id: String,
    pub headers: Vec<(String, String)>,
    pub path: String,
    pub routing_path: String,
    pub user_id: Option<String>,
}

/// The read-only context consumed by the external planner and mutation
/// builders: caller metadata plus the version's policy and type systems.
pub struct RequestContext<'a> {
    pub ps: &'a PolicySystem,
    pub ts: &'a TypeSystem,
    pub version_id: String,
    pub user_id: Option<String>,
    pub path: String,
    pub headers: Vec<(String, String)>,
}

impl<'a> RequestContext<'a> {
    /// Assemble the borrowed context for one call from the caller's
    /// metadata and the version's policy and type systems.
    pub fn new(
        ps: &'a PolicySystem,
        ts: &'a TypeSystem,
        context: ChiselRequestContext,
    ) -> (r: RequestContext<'a>)
        ensures
            r.ps == ps,
            r.ts == ts,
            r.version_id == context.version_id,
            r.user_id == context.user_id,
            r.path == context.path,
            r.headers == context.headers,
    {
        RequestContext {
            ps,
            ts,
            version_id: context.version_id,
            user_id: context.user_id,
            path: context.path,
            headers: context.headers,
        }
    }
}

} // verus!
