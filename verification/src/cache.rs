//! Keys and lifetimes of the provider response cache.
use vstd::prelude::*;
use vstd::string::*;

verus! {

/// The kinds of provider record the cache holds.
#[derive(Copy, Clone, Debug, PartialEq, Eq, Structural)]
pub enum CacheEntity {
    Series,
    Issue,
    Publisher,
    Person,
    Character,
    Team,
    StoryArc,
    Location,
    Concept,
    Object,
    Imprint,
    Universe,
}

pub open spec fn cache_entity_key(e: CacheEntity) -> Seq<char> {
    match e {
        CacheEntity::Series => "series"@,
        CacheEntity::Issue => "issue"@,
        CacheEntity::Publisher => "publisher"@,
        CacheEntity::Person => "person"@,
        CacheEntity::Character => "character"@,
        CacheEntity::Team => "team"@,
        CacheEntity::StoryArc => "story_arc"@,
        CacheEntity::Location => "location"@,
        CacheEntity::Concept => "concept"@,
        CacheEntity::Object => "object"@,
        CacheEntity::Imprint => "imprint"@,
        CacheEntity::Universe => "universe"@,
    }
}

/// Distinct kinds of record are cached under distinct keys.
pub proof fn lemma_cache_keys_distinct(a: CacheEntity, b: CacheEntity)
    requires
        a != b,
    ensures
        cache_entity_key(a) != cache_entity_key(b),
{
    reveal_strlit("series");
    reveal_strlit("issue");
    reveal_strlit("publisher");
    reveal_strlit("person");
    reveal_strlit("character");
    reveal_strlit("team");
    reveal_strlit("story_arc");
    reveal_strlit("location");
    reveal_strlit("concept");
    reveal_strlit("object");
    reveal_strlit("imprint");
    reveal_strlit("universe");
    let ka = cache_entity_key(a);
    let kb = cache_entity_key(b);
    if ka.len() == kb.len() {
        assert(ka[0] != kb[0] || ka[1] != kb[1] || ka[2] != kb[2]);
    }
}

/// Hours a cached record stays fresh: a day for issues, a week for
/// series, thirty days for everything else.
pub open spec fn ttl_hours(e: CacheEntity) -> i64 {
    match e {
        CacheEntity::Issue => 24,
        CacheEntity::Series => 168,
        _ => 720,
    }
}

impl CacheEntity {
    /// The snake-case key stored in the cache's `entity` column.
    pub fn as_str(self) -> (r: &'static str)
        ensures
            r@ == cache_entity_key(self),
    {
        match self {
            CacheEntity::Series => "series",
            CacheEntity::Issue => "issue",
            CacheEntity::Publisher => "publisher",
            CacheEntity::Person => "person",
            CacheEntity::Character => "character",
            CacheEntity::Team => "team",
            CacheEntity::StoryArc => "story_arc",
            CacheEntity::Location => "location",
            CacheEntity::Concept => "concept",
            CacheEntity::Object => "object",
            CacheEntity::Imprint => "imprint",
            CacheEntity::Universe => "universe",
        }
    }

    /// The default time-to-live, in hours, used until an operator sets
    /// one for the kind.
    pub fn default_ttl(self) -> (r: i64)
        ensures
            r == ttl_hours(self),
    {
        match self {
            CacheEntity::Issue => 24,
            CacheEntity::Series => 168,
            _ => 720,
        }
    }
}

} // verus!
