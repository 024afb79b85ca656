//! Which origins may call the service from a browser.

use vstd::hash_map::StringHashMap;
use vstd::prelude::*;

verus! {

/// How long a browser may remember a preflight answer, in seconds.
pub const CORS_MAX_AGE: usize = 3600;

/// A set of origins.
pub struct OriginSet {
    names: StringHashMap<bool>,
}

impl View for OriginSet {
    type V = Set<Seq<char>>;

    closed spec fn view(&self) -> Set<Seq<char>> {
        self.names@.dom()
    }
}

/// The rules that the cross-origin middleware is set up with.
pub struct CorsRules {
    pub allowed_origins: OriginSet,
    pub allowed_methods: Vec<String>,
    pub allowed_headers: Vec<String>,
    pub max_age: usize,
}

/// Whether `origin` is one of `domains`.
pub open spec fn lists_origin(domains: Seq<String>, origin: Seq<char>) -> bool {
    exists|i: int| 0 <= i < domains.len() && (#[trigger] domains[i])@ == origin
}

impl OriginSet {
    /// The set of the domains of a list.
    pub fn of(cors_domains: &Vec<String>) -> (set: OriginSet)
        ensures
            forall|origin: Seq<char>| #[trigger]
                set@.contains(origin) <==> lists_origin(cors_domains@, origin),
    {
        OriginSet { names: origin_names(cors_domains) }
    }

    /// Whether `origin` is in the set, character by character.
    pub fn has(&self, origin: &str) -> (found: bool)
        ensures
            found == self@.contains(origin@),
    {
        self.names.contains_key(origin)
    }
}

/// The hash set of the domains of a list.
fn origin_names(cors_domains: &Vec<String>) -> (set: StringHashMap<bool>)
    ensures
        forall|origin: Seq<char>| #[trigger]
            set@.contains_key(origin) <==> lists_origin(cors_domains@, origin),
{
    let mut set: StringHashMap<bool> = StringHashMap::new();
    let mut i: usize = 0;
    while i < cors_domains.len()
        invariant
            0 <= i <= cors_domains.len(),
            forall|origin: Seq<char>| #[trigger]
                set@.contains_key(origin) <==> lists_origin(cors_domains@.take(i as int), origin),
        decreases cors_domains.len() - i,
    {
        let ghost before = cors_domains@.take(i as int);
        let ghost after = cors_domains@.take(i as int + 1);
        set.insert(cors_domains[i].clone(), true);
        proof {
            assert forall|origin: Seq<char>| #[trigger]
                set@.contains_key(origin) <==> lists_origin(after, origin) by {
                if lists_origin(before, origin) {
                    let k = choose|k: int| 0 <= k < before.len() && (#[trigger] before[k])@ == origin;
                    assert(after[k]@ == origin);
                }
                if origin == cors_domains@[i as int]@ {
                    assert(after[i as int]@ == origin);
                }
                if lists_origin(after, origin) {
                    let k = choose|k: int| 0 <= k < after.len() && (#[trigger] after[k])@ == origin;
                    if k < i {
                        assert(before[k]@ == origin);
                    }
                }
            }
        }
        i = i + 1;
    }
    proof {
        assert(cors_domains@.take(cors_domains.len() as int) =~= cors_domains@);
    }
    set
}

/// The rules for a list of allowed domains: those origins and no others,
/// with the methods `GET` and `POST`, the headers `authorization`, `accept`
/// and `content-type`, and preflight answers good for an hour.
pub fn setup_cors(cors_domains: &Vec<String>) -> (rules: CorsRules)
    ensures
        forall|origin: Seq<char>| #[trigger]
            rules.allowed_origins@.contains(origin) <==> lists_origin(cors_domains@, origin),
        rules.allowed_methods@.len() == 2,
        rules.allowed_methods@[0]@ == "GET"@,
        rules.allowed_methods@[1]@ == "POST"@,
        rules.allowed_headers@.len() == 3,
        rules.allowed_headers@[0]@ == "authorization"@,
        rules.allowed_headers@[1]@ == "accept"@,
        rules.allowed_headers@[2]@ == "content-type"@,
        rules.max_age == CORS_MAX_AGE,
{
    let mut allowed_methods: Vec<String> = Vec::new();
    allowed_methods.push(String::from_str("GET"));
    allowed_methods.push(String::from_str("POST"));
    let mut allowed_headers: Vec<String> = Vec::new();
    allowed_headers.push(String::from_str("authorization"));
    allowed_headers.push(String::from_str("accept"));
    allowed_headers.push(String::from_str("content-type"));
    CorsRules {
        allowed_origins: OriginSet::of(cors_domains),
        allowed_methods,
        allowed_headers,
        max_age: CORS_MAX_AGE,
    }
}

impl CorsRules {
    /// Whether `origin` is one of the allowed origins, character by
    /// character.
    pub fn lists(&self, origin: &str) -> (listed: bool)
        ensures
            listed == self.allowed_origins@.contains(origin@),
    {
        self.allowed_origins.has(origin)
    }

    /// Decides on one request: an origin is allowed exactly when its header
    /// is readable text and names one of the allowed origins.
    pub fn allows_origin(&self, origin: Option<&str>) -> (allowed: bool)
        ensures
            allowed == match origin {
                Some(text) => self.allowed_origins@.contains(text@),
                None => false,
            },
    {
        match origin {
            Some(text) => self.lists(text),
            None => false,
        }
    }
}

} // verus!
