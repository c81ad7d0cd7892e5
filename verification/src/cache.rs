use vstd::prelude::*;

verus! {

#[verifier::external_type_specification]
#[verifier::external_body]
#[verifier::reject_recursive_types(K)]
#[verifier::reject_recursive_types(V)]
#[verifier::reject_recursive_types(S)]
pub struct ExLruCache<K, V, S>(lru::LruCache<K, V, S>);

#[verifier::external_type_specification]
#[verifier::external_body]
pub struct ExLruDefaultHasher(lru::DefaultHasher);

/// The translation cache: source text → translation, least recently used pairs first out.
pub type TranslationCache = lru::LruCache<String, String>;

/// The source text → translation pairs held by a translation cache.
pub uninterp spec fn cache_contents(cache: TranslationCache) -> Map<Seq<char>, Seq<char>>;

/// The source texts of a translation cache, from the least to the most recently used.
pub uninterp spec fn cache_order(cache: TranslationCache) -> Seq<Seq<char>>;

/// The usage order lists each cached source text exactly once.
pub open spec fn order_matches(cache: TranslationCache) -> bool {
    cache_order(cache).no_duplicates() && cache_order(cache).to_set() == cache_contents(cache).dom()
}

/// `order` with `key` moved to, or added at, the most recently used end.
pub open spec fn touched(order: Seq<Seq<char>>, key: Seq<char>) -> Seq<Seq<char>> {
    order.filter(|k: Seq<char>| k != key).push(key)
}

/// The number of pairs that a translation cache was created to hold.
pub uninterp spec fn cache_capacity(cache: TranslationCache) -> nat;

/// Calls `lru::LruCache::new`. Claimed: the cache starts empty, with an empty usage
/// order, and holds at most `capacity` pairs. After each call the order lists every
/// cached key once: the crate keeps one list entry per map entry.
#[verifier::external_body]
pub(crate) fn new_cache(capacity: usize) -> (cache: TranslationCache)
    requires
        capacity > 0,
    ensures
        cache_contents(cache).dom() == Set::<Seq<char>>::empty(),
        cache_order(cache) == Seq::<Seq<char>>::empty(),
        order_matches(cache),
        cache_capacity(cache) == capacity,
{
    TranslationCache::new(std::num::NonZeroUsize::new(capacity).unwrap())
}

/// Calls `lru::LruCache::get` and clones the value. Claimed: the result is the value
/// stored for exactly this key, if any; the pairs and the capacity do not change; a
/// key that is found becomes the most recently used one (`get` moves its entry to the
/// front of the list).
#[verifier::external_body]
pub(crate) fn cache_get(cache: &mut TranslationCache, key: &String) -> (r: Option<String>)
    ensures
        cache_contents(*final(cache)) == cache_contents(*old(cache)),
        cache_capacity(*final(cache)) == cache_capacity(*old(cache)),
        order_matches(*final(cache)),
        cache_order(*final(cache)) == if cache_contents(*old(cache)).contains_key(key@) {
            touched(cache_order(*old(cache)), key@)
        } else {
            cache_order(*old(cache))
        },
        match r {
            Some(v) => cache_contents(*old(cache)).contains_key(key@) && v@ == cache_contents(*old(cache))[key@],
            None => !cache_contents(*old(cache)).contains_key(key@),
        },
{
    cache.get(key).cloned()
}

/// Calls `lru::LruCache::put`. Claimed: afterwards the key maps to the value and is the
/// most recently used one. A key already present is updated in place and moved to the
/// front; a new key is added when the cache has room; when the cache is full, the least
/// recently used pair (the list's tail, first in `cache_order`) is evicted first.
#[verifier::external_body]
pub(crate) fn cache_put(cache: &mut TranslationCache, key: String, value: String)
    ensures
        cache_capacity(*final(cache)) == cache_capacity(*old(cache)),
        order_matches(*final(cache)),
        ({
            let before = cache_contents(*old(cache));
            let order = cache_order(*old(cache));
            let after = cache_contents(*final(cache));
            let order_after = cache_order(*final(cache));
            if before.contains_key(key@) {
                after == before.insert(key@, value@) && order_after == touched(order, key@)
            } else if before.len() < cache_capacity(*old(cache)) {
                after == before.insert(key@, value@) && order_after == order.push(key@)
            } else {
                after == before.remove(order[0]).insert(key@, value@) && order_after == order.drop_first().push(key@)
            }
        }),
{
    cache.put(key, value);
}

} // verus!
